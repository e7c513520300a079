use http_server::{JobChannel, Received};

#[test]
fn a_fresh_channel_is_open_and_empty() {
    let mut channel: JobChannel<u32> = JobChannel::new();
    assert!(!channel.is_closed());
    assert!(channel.is_empty());
    assert_eq!(channel.len(), 0);
    assert!(matches!(channel.receive(), Received::Empty));
}

#[test]
fn jobs_leave_in_the_order_they_were_sent() {
    let mut channel: JobChannel<u32> = JobChannel::new();
    for job in [7, 3, 9, 3] {
        assert_eq!(channel.send(job), Ok(()));
    }
    assert_eq!(channel.len(), 4);
    assert!(matches!(channel.receive(), Received::Job(7)));
    assert!(matches!(channel.receive(), Received::Job(3)));
    assert_eq!(channel.len(), 2);
    assert!(matches!(channel.receive(), Received::Job(9)));
    assert!(matches!(channel.receive(), Received::Job(3)));
    assert!(channel.is_empty());
    assert!(matches!(channel.receive(), Received::Empty));
}

#[test]
fn send_never_fails_for_want_of_room() {
    let mut channel: JobChannel<usize> = JobChannel::new();
    for job in 0..10_000 {
        assert_eq!(channel.send(job), Ok(()));
    }
    assert_eq!(channel.len(), 10_000);
    assert!(matches!(channel.receive(), Received::Job(0)));
}

#[test]
fn a_closed_channel_hands_out_its_backlog_first() {
    let mut channel: JobChannel<&str> = JobChannel::new();
    assert_eq!(channel.send("first"), Ok(()));
    assert_eq!(channel.send("second"), Ok(()));
    channel.close();
    assert!(channel.is_closed());
    assert_eq!(channel.len(), 2);
    assert!(matches!(channel.receive(), Received::Job("first")));
    assert!(matches!(channel.receive(), Received::Job("second")));
    assert!(matches!(channel.receive(), Received::Closed));
    assert!(matches!(channel.receive(), Received::Closed));
}

#[test]
fn a_closed_channel_hands_the_job_back() {
    let mut channel: JobChannel<u32> = JobChannel::new();
    assert_eq!(channel.send(1), Ok(()));
    channel.close();
    assert_eq!(channel.send(2), Err(2));
    assert_eq!(channel.len(), 1);
    assert!(matches!(channel.receive(), Received::Job(1)));
    assert!(matches!(channel.receive(), Received::Closed));
}

#[test]
fn closing_twice_is_closing_once() {
    let mut channel: JobChannel<u32> = JobChannel::new();
    assert_eq!(channel.send(5), Ok(()));
    channel.close();
    channel.close();
    assert!(channel.is_closed());
    assert_eq!(channel.len(), 1);
    assert!(matches!(channel.receive(), Received::Job(5)));
    assert!(matches!(channel.receive(), Received::Closed));
}

#[test]
fn an_empty_open_channel_is_not_closed() {
    let mut channel: JobChannel<u32> = JobChannel::new();
    assert!(matches!(channel.receive(), Received::Empty));
    assert_eq!(channel.send(4), Ok(()));
    assert!(matches!(channel.receive(), Received::Job(4)));
    assert!(matches!(channel.receive(), Received::Empty));
    assert!(!channel.is_closed());
}
