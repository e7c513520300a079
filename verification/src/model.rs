//! The pool at work, as a state machine, and what holds of every run of it.
//!
//! One state holds the channel, every worker's dispatch loop and the history
//! of the jobs. One event is one call that a running pool makes, and it
//! changes the state as the contract of the called function says:
//!
//! - a submission, as [`crate::ThreadPool::execute`];
//! - the shutdown, as [`crate::ThreadPool::shutdown`];
//! - one worker's attempt to receive, as [`crate::WorkerLoop::receive`];
//! - one worker's report that its job ran to its end, as
//!   [`crate::WorkerLoop::complete`].
//!
//! The calls that touch the channel are made under the channel's lock, one
//! at a time, so a run is a sequence of events, in any interleaving.
//!
//! The model assumes that every job returns: a job that brings its worker's
//! thread down is outside it.
use crate::channel::{ChannelView, Received};
use crate::pool::{channel_after_submit, submit_result};
use crate::worker::{step_for, Step, WorkerState};
use vstd::multiset::Multiset;
use vstd::prelude::*;

verus! {

/// One worker's dispatch loop, together with the job it has in hand.
pub enum Slot<T> {
    /// Between jobs.
    Running,
    /// Running this job.
    Executing(T),
    /// Out of the loop.
    Terminated,
}

impl<T> Slot<T> {
    /// The state of the dispatch loop.
    pub open spec fn state(self) -> WorkerState {
        match self {
            Slot::Running => WorkerState::Running,
            Slot::Executing(_) => WorkerState::Executing,
            Slot::Terminated => WorkerState::Terminated,
        }
    }

    /// The worker after one attempt to receive gave `received`.
    pub open spec fn received(self, received: Received<T>) -> Slot<T> {
        match self {
            Slot::Running => match received {
                Received::Job(job) => Slot::Executing(job),
                Received::Empty => Slot::Running,
                Received::Closed => Slot::Terminated,
            },
            Slot::Executing(job) => Slot::Executing(job),
            Slot::Terminated => Slot::Terminated,
        }
    }

    /// The worker after the job in hand, if there is one, ran to its end.
    pub open spec fn completed(self) -> Slot<T> {
        match self {
            Slot::Executing(_) => Slot::Running,
            Slot::Running => Slot::Running,
            Slot::Terminated => Slot::Terminated,
        }
    }

    /// The job in hand, as a sequence of one job or none.
    pub open spec fn in_hand(self) -> Seq<T> {
        match self {
            Slot::Executing(job) => seq![job],
            Slot::Running => Seq::empty(),
            Slot::Terminated => Seq::empty(),
        }
    }
}

/// The model's worker moves as the dispatch loop does: through the states
/// that the loop's contract names, with the job that the loop is told to
/// run in hand.
pub proof fn lemma_slot_follows_loop<T>(slot: Slot<T>, received: Received<T>)
    ensures
        slot.received(received).state() == slot.state().on_received(received),
        slot.completed().state() == slot.state().on_completed(),
        slot.state().receives() ==> (step_for(received) matches Step::Run(job)
            ==> slot.received(received) == Slot::Executing(job)),
        slot.state().receives() ==> (!(step_for(received) is Run) ==> slot.received(
            received,
        ).in_hand() == Seq::<T>::empty()),
{
}

/// The jobs that the workers have in hand, each as often as it is in hand.
pub open spec fn in_flight<T>(workers: Seq<Slot<T>>) -> Multiset<T>
    decreases workers.len(),
{
    if workers.len() == 0 {
        Multiset::empty()
    } else {
        in_flight(workers.drop_last()).add(workers.last().in_hand().to_multiset())
    }
}

/// One step of a running pool.
pub enum Event<T> {
    /// The owner submits this job.
    Submit(T),
    /// The owner shuts the pool down.
    Shutdown,
    /// The worker with this id makes one attempt to receive.
    Receive(nat),
    /// The worker with this id reports that its job ran to its end.
    Complete(nat),
}

/// Whether the shutdown is among `events`.
pub open spec fn shut<T>(events: Seq<Event<T>>) -> bool {
    exists|i: int| 0 <= i < events.len() && events[i] is Shutdown
}

/// The jobs that `events` submit before the shutdown, in the order of their
/// submission.
pub open spec fn submitted<T>(events: Seq<Event<T>>) -> Seq<T>
    decreases events.len(),
{
    if events.len() == 0 {
        Seq::empty()
    } else {
        let earlier = events.drop_last();
        match events.last() {
            Event::Submit(job) => if shut(earlier) {
                submitted(earlier)
            } else {
                submitted(earlier).push(job)
            },
            _ => submitted(earlier),
        }
    }
}

/// A pool at work.
#[verifier::ext_equal]
pub struct PoolModel<T> {
    /// Whether the pool still takes jobs.
    pub accepting: bool,
    /// The channel between the owner and the workers.
    pub channel: ChannelView<T>,
    /// The workers; the worker with id `i` stands at index `i`.
    pub workers: Seq<Slot<T>>,
    /// The jobs that the channel took in, in the order of their submission.
    pub accepted: Seq<T>,
    /// The jobs that were handed to a worker, in the order in which they
    /// left the channel.
    pub started: Seq<T>,
    /// The jobs that ran to their end, in the order in which they ended.
    pub finished: Seq<T>,
}

impl<T> PoolModel<T> {
    /// A pool of `size` workers as it is built: it takes jobs, the channel
    /// is open and empty, every worker is about to receive.
    pub open spec fn start(size: nat) -> Self {
        PoolModel {
            accepting: true,
            channel: ChannelView::fresh(),
            workers: Seq::new(size, |i: int| Slot::Running),
            accepted: Seq::empty(),
            started: Seq::empty(),
            finished: Seq::empty(),
        }
    }

    /// The pool after the owner submitted `job`.
    pub open spec fn submit(self, job: T) -> Self {
        PoolModel {
            channel: channel_after_submit(self.accepting, self.channel, job),
            accepted: if submit_result(self.accepting, self.channel) is Ok {
                self.accepted.push(job)
            } else {
                self.accepted
            },
            ..self
        }
    }

    /// The pool after the owner shut it down.
    pub open spec fn shutdown(self) -> Self {
        PoolModel { accepting: false, channel: self.channel.close(), ..self }
    }

    /// The pool after worker `id` made one attempt to receive. Only a
    /// running worker touches the channel.
    pub open spec fn receive(self, id: nat) -> Self {
        if id < self.workers.len() && self.workers[id as int].state().receives() {
            let received = self.channel.receive();
            PoolModel {
                channel: self.channel.after_receive(),
                workers: self.workers.update(id as int, self.workers[id as int].received(received)),
                started: match received {
                    Received::Job(job) => self.started.push(job),
                    _ => self.started,
                },
                ..self
            }
        } else {
            self
        }
    }

    /// The pool after worker `id` reported that its job ran to its end.
    pub open spec fn complete(self, id: nat) -> Self {
        if id < self.workers.len() {
            PoolModel {
                workers: self.workers.update(id as int, self.workers[id as int].completed()),
                finished: self.finished + self.workers[id as int].in_hand(),
                ..self
            }
        } else {
            self
        }
    }

    /// The pool after one event.
    pub open spec fn step(self, event: Event<T>) -> Self {
        match event {
            Event::Submit(job) => self.submit(job),
            Event::Shutdown => self.shutdown(),
            Event::Receive(id) => self.receive(id),
            Event::Complete(id) => self.complete(id),
        }
    }

    /// The pool after `events`, first to last.
    pub open spec fn after(self, events: Seq<Event<T>>) -> Self
        decreases events.len(),
    {
        if events.len() == 0 {
            self
        } else {
            self.after(events.drop_last()).step(events.last())
        }
    }

    /// Whether every worker has left its loop: all that is left of a
    /// shutdown is to join threads that have ended.
    pub open spec fn all_terminated(self) -> bool {
        forall|i: int| 0 <= i < self.workers.len() ==> self.workers[i] is Terminated
    }
}

} // verus!
