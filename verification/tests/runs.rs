use http_server::{JobChannel, PoolError, Step, ThreadPool, WorkerLoop, WorkerState};

/// A pool, its channel and its workers' loops in one thread: the test picks
/// which worker moves next.
struct Bench {
    pool: ThreadPool<usize>,
    channel: JobChannel<u32>,
    loops: Vec<WorkerLoop>,
    in_hand: Vec<Option<u32>>,
    finished: Vec<u32>,
    most_at_once: usize,
}

impl Bench {
    fn new(size: usize) -> Bench {
        let spawn = |id: usize| -> Result<usize, ()> { Ok(id) };
        let pool = ThreadPool::new(size, spawn).ok().unwrap();
        let loops = pool.workers().iter().map(|worker| WorkerLoop::new(worker.id())).collect();
        Bench {
            pool,
            channel: JobChannel::new(),
            loops,
            in_hand: vec![None; size],
            finished: Vec::new(),
            most_at_once: 0,
        }
    }

    fn submit(&mut self, job: u32) -> Result<(), PoolError> {
        self.pool.execute(&mut self.channel, job)
    }

    fn shutdown(&mut self) -> Vec<usize> {
        self.pool.shutdown(&mut self.channel)
    }

    /// One move of worker `id`: it reports the job in hand, if it has one,
    /// or else makes one attempt to receive.
    fn advance(&mut self, id: usize) {
        match self.in_hand[id].take() {
            Some(job) => {
                self.loops[id].complete();
                self.finished.push(job);
            }
            None => {
                if let Step::Run(job) = self.loops[id].receive(&mut self.channel) {
                    self.in_hand[id] = Some(job);
                }
            }
        }
        let at_once = self.in_hand.iter().filter(|job| job.is_some()).count();
        self.most_at_once = self.most_at_once.max(at_once);
    }

    fn all_terminated(&self) -> bool {
        self.loops.iter().all(|worker| worker.is_terminated())
    }

    /// Lets the workers move in turn, `stride` ids apart, until all have
    /// left their loops.
    fn drain(&mut self, stride: usize) {
        let size = self.loops.len();
        let mut id = 0;
        let mut moves = 0;
        while !self.all_terminated() {
            self.advance(id);
            id = (id + stride) % size;
            moves += 1;
            assert!(moves < 1_000_000);
        }
    }
}

fn sorted(mut jobs: Vec<u32>) -> Vec<u32> {
    jobs.sort();
    jobs
}

#[test]
fn every_submitted_job_runs_exactly_once() {
    for size in 1..6 {
        for count in [0u32, 1, 2, 5, 17, 64] {
            let mut bench = Bench::new(size);
            for job in 0..count {
                assert_eq!(bench.submit(job), Ok(()));
            }
            assert_eq!(bench.shutdown().len(), size);
            bench.drain(1);
            assert_eq!(sorted(bench.finished.clone()), (0..count).collect::<Vec<u32>>());
            assert!(bench.channel.is_empty());
        }
    }
}

#[test]
fn a_job_submitted_twice_runs_twice() {
    let mut bench = Bench::new(3);
    for job in [4, 4, 9, 4] {
        assert_eq!(bench.submit(job), Ok(()));
    }
    bench.shutdown();
    bench.drain(2);
    assert_eq!(sorted(bench.finished.clone()), vec![4, 4, 4, 9]);
}

#[test]
fn jobs_submitted_while_workers_run_are_all_run() {
    let mut bench = Bench::new(2);
    assert_eq!(bench.submit(1), Ok(()));
    bench.advance(0);
    assert_eq!(bench.submit(2), Ok(()));
    bench.advance(1);
    bench.advance(0);
    assert_eq!(bench.submit(3), Ok(()));
    bench.advance(0);
    bench.advance(1);
    bench.shutdown();
    bench.drain(1);
    assert_eq!(sorted(bench.finished.clone()), vec![1, 2, 3]);
}

#[test]
fn no_more_jobs_run_at_once_than_there_are_workers() {
    for size in 1..5 {
        let mut bench = Bench::new(size);
        for job in 0..20 {
            assert_eq!(bench.submit(job), Ok(()));
        }
        for id in 0..size {
            bench.advance(id);
        }
        assert_eq!(bench.most_at_once, size);
        for id in 0..size {
            assert_eq!(bench.loops[id].state(), WorkerState::Executing);
        }
        assert_eq!(bench.channel.len(), 20 - size);
        bench.shutdown();
        bench.drain(1);
        assert_eq!(bench.most_at_once, size);
        assert_eq!(bench.finished.len(), 20);
    }
}

#[test]
fn a_job_submitted_after_shutdown_never_runs() {
    let mut bench = Bench::new(2);
    assert_eq!(bench.submit(1), Ok(()));
    bench.shutdown();
    assert_eq!(bench.submit(2), Err(PoolError::QueueClosed));
    bench.drain(1);
    assert_eq!(bench.finished, vec![1]);
}

#[test]
fn shutdown_is_not_over_while_a_job_runs() {
    let mut bench = Bench::new(2);
    assert_eq!(bench.submit(7), Ok(()));
    bench.advance(0);
    bench.shutdown();
    bench.advance(1);
    assert!(bench.loops[1].is_terminated());
    assert!(!bench.all_terminated());
    assert_eq!(bench.loops[0].state(), WorkerState::Executing);
    bench.advance(0);
    assert_eq!(bench.finished, vec![7]);
    assert!(!bench.all_terminated());
    bench.advance(0);
    assert!(bench.all_terminated());
}

#[test]
fn a_single_worker_runs_the_jobs_in_the_order_of_submission() {
    let mut bench = Bench::new(1);
    let jobs = vec![5, 1, 4, 1, 3, 9, 2, 6];
    for job in jobs.iter() {
        assert_eq!(bench.submit(*job), Ok(()));
    }
    bench.shutdown();
    bench.drain(1);
    assert_eq!(bench.finished, jobs);
}

#[test]
fn a_single_worker_keeps_the_order_when_jobs_come_in_between() {
    let mut bench = Bench::new(1);
    assert_eq!(bench.submit(10), Ok(()));
    assert_eq!(bench.submit(20), Ok(()));
    bench.advance(0);
    assert_eq!(bench.submit(30), Ok(()));
    bench.advance(0);
    bench.advance(0);
    assert_eq!(bench.submit(40), Ok(()));
    bench.shutdown();
    bench.drain(1);
    assert_eq!(bench.finished, vec![10, 20, 30, 40]);
}

#[test]
fn jobs_leave_the_channel_in_the_order_of_submission_whoever_takes_them() {
    let mut bench = Bench::new(3);
    for job in 0..9 {
        assert_eq!(bench.submit(job), Ok(()));
    }
    let mut taken = Vec::new();
    for id in [2, 0, 1] {
        bench.advance(id);
        taken.push(bench.in_hand[id].unwrap());
    }
    assert_eq!(taken, vec![0, 1, 2]);
    bench.advance(0);
    bench.advance(0);
    assert_eq!(bench.in_hand[0], Some(3));
}

#[test]
fn idle_workers_leave_at_once_when_the_pool_shuts_down() {
    let mut bench = Bench::new(4);
    for id in 0..4 {
        bench.advance(id);
        assert_eq!(bench.loops[id].state(), WorkerState::Running);
    }
    bench.shutdown();
    for id in 0..4 {
        bench.advance(id);
        assert!(bench.loops[id].is_terminated());
    }
    assert!(bench.finished.is_empty());
}

/// A small generator of numbers that look random and are the same on every
/// run.
struct Dice(u64);

impl Dice {
    fn roll(&mut self, sides: usize) -> usize {
        self.0 = self.0.wrapping_mul(6364136223846793005).wrapping_add(1442695040888963407);
        ((self.0 >> 33) as usize) % sides
    }
}

#[test]
fn in_every_interleaving_each_job_is_in_one_place() {
    for seed in 0..50u64 {
        let mut dice = Dice(seed);
        let size = 1 + dice.roll(4);
        let mut bench = Bench::new(size);
        let mut submitted: Vec<u32> = Vec::new();
        let mut next_job = 0;
        let mut shut = false;
        for _ in 0..400 {
            match dice.roll(8) {
                0 | 1 | 2 => {
                    let result = bench.submit(next_job);
                    if shut {
                        assert_eq!(result, Err(PoolError::QueueClosed));
                    } else {
                        assert_eq!(result, Ok(()));
                        submitted.push(next_job);
                    }
                    next_job += 1;
                }
                3 => {
                    if dice.roll(20) == 0 {
                        bench.shutdown();
                        shut = true;
                    }
                }
                _ => {
                    let id = dice.roll(size);
                    bench.advance(id);
                }
            }
            let in_hand = bench.in_hand.iter().filter(|job| job.is_some()).count();
            assert!(in_hand <= size);
            assert_eq!(bench.finished.len() + in_hand + bench.channel.len(), submitted.len());
        }
        bench.shutdown();
        bench.drain(1);
        assert!(bench.most_at_once <= size);
        assert_eq!(sorted(bench.finished.clone()), submitted);
        if size == 1 {
            assert_eq!(bench.finished, submitted);
        }
    }
}
