//! A worker, seen from both sides: the record that the pool keeps of it, and
//! the dispatch loop that its thread runs.
use crate::channel::{ChannelView, JobChannel, Received};
use crate::error::PoolError;
use vstd::prelude::*;

verus! {

/// Where a worker's dispatch loop stands.
#[derive(Clone, Copy, Debug, PartialEq, Eq, Structural)]
pub enum WorkerState {
    /// Between jobs: the next thing the worker does is to receive.
    Running,
    /// One job is in hand and runs on the worker's thread.
    Executing,
    /// The worker saw the channel closed. It receives nothing more.
    Terminated,
}

/// What the worker's thread has to do after one attempt to receive.
#[derive(Debug)]
pub enum Step<T> {
    /// Run this job to its end, then report that it completed.
    Run(T),
    /// Nothing was queued: wait until the channel changes and ask again.
    Wait,
    /// The channel is closed and drained: leave the loop.
    Exit,
}

impl WorkerState {
    /// The state that follows when a worker in state `self` made one attempt
    /// to receive and got `received`. Only a running worker receives.
    pub open spec fn on_received<T>(self, received: Received<T>) -> WorkerState {
        match self {
            WorkerState::Running => match received {
                Received::Job(_) => WorkerState::Executing,
                Received::Empty => WorkerState::Running,
                Received::Closed => WorkerState::Terminated,
            },
            WorkerState::Executing => WorkerState::Executing,
            WorkerState::Terminated => WorkerState::Terminated,
        }
    }

    /// The state that follows when the job in hand, if there is one, ran to
    /// its end.
    pub open spec fn on_completed(self) -> WorkerState {
        match self {
            WorkerState::Executing => WorkerState::Running,
            WorkerState::Running => WorkerState::Running,
            WorkerState::Terminated => WorkerState::Terminated,
        }
    }

    /// Whether a worker in this state touches the channel when asked to
    /// receive.
    pub open spec fn receives(self) -> bool {
        self == WorkerState::Running
    }
}

/// What a running worker does with what it received.
pub open spec fn step_for<T>(received: Received<T>) -> Step<T> {
    match received {
        Received::Job(job) => Step::Run(job),
        Received::Empty => Step::Wait,
        Received::Closed => Step::Exit,
    }
}

/// The dispatch loop of one worker, as a state machine. The worker's thread
/// owns it and alternates [`WorkerLoop::receive`], under the channel's lock,
/// with running the job it got, outside the lock.
#[derive(Debug)]
pub struct WorkerLoop {
    id: usize,
    state: WorkerState,
}

impl WorkerLoop {
    /// The worker's id.
    pub closed spec fn spec_id(&self) -> usize {
        self.id
    }

    /// The state of the loop.
    pub closed spec fn spec_state(&self) -> WorkerState {
        self.state
    }

    /// The loop of worker `id`, about to receive for the first time.
    pub fn new(id: usize) -> (worker: Self)
        ensures
            worker.id() == id,
            worker.state() == WorkerState::Running,
    {
        WorkerLoop { id, state: WorkerState::Running }
    }

    /// The worker's id.
    #[verifier::when_used_as_spec(spec_id)]
    pub fn id(&self) -> (id: usize)
        ensures
            id == self.spec_id(),
    {
        self.id
    }

    /// The state of the loop.
    #[verifier::when_used_as_spec(spec_state)]
    pub fn state(&self) -> (state: WorkerState)
        ensures
            state == self.spec_state(),
    {
        self.state
    }

    /// Whether the loop has ended.
    pub fn is_terminated(&self) -> (terminated: bool)
        ensures
            terminated <==> self.state() == WorkerState::Terminated,
    {
        match self.state {
            WorkerState::Terminated => true,
            _ => false,
        }
    }

    /// One turn of the loop: a running worker makes one attempt to receive
    /// from `channel` and learns what to do next. A terminated worker leaves
    /// the channel alone and is told to exit again.
    ///
    /// A worker holds one job at a time, so this is not for a worker that is
    /// executing: it reports the job as completed first.
    pub fn receive<T>(&mut self, channel: &mut JobChannel<T>) -> (step: Step<T>)
        requires
            old(self).state() != WorkerState::Executing,
        ensures
            final(self).id() == old(self).id(),
            old(self).state().receives() ==> {
                &&& step == step_for(old(channel)@.receive())
                &&& final(self).state() == old(self).state().on_received(old(channel)@.receive())
                &&& final(channel)@ == old(channel)@.after_receive()
            },
            !old(self).state().receives() ==> {
                &&& step == Step::<T>::Exit
                &&& final(self).state() == old(self).state()
                &&& final(channel)@ == old(channel)@
            },
    {
        match self.state {
            WorkerState::Running => match channel.receive() {
                Received::Job(job) => {
                    self.state = WorkerState::Executing;
                    Step::Run(job)
                },
                Received::Empty => Step::Wait,
                Received::Closed => {
                    self.state = WorkerState::Terminated;
                    Step::Exit
                },
            },
            _ => Step::Exit,
        }
    }

    /// Reports that the job in hand ran to its end: the worker is between
    /// jobs again. With no job in hand nothing changes.
    pub fn complete(&mut self)
        ensures
            final(self).id() == old(self).id(),
            final(self).state() == old(self).state().on_completed(),
    {
        match self.state {
            WorkerState::Executing => {
                self.state = WorkerState::Running;
            },
            _ => {},
        }
    }
}

/// The pool's record of one worker: its id and the handle of its thread. The
/// handle is there while the worker runs and is taken out once, at shutdown.
#[derive(Debug)]
pub struct Worker<H> {
    id: usize,
    thread: Option<H>,
}

impl<H> Worker<H> {
    /// The worker's id.
    pub closed spec fn spec_id(&self) -> usize {
        self.id
    }

    /// The handle of the worker's thread, while the pool holds it.
    pub closed spec fn thread(&self) -> Option<H> {
        self.thread
    }

    /// The record of worker `id`, from what starting its thread gave: a
    /// worker that holds the handle, or the error of a thread that did not
    /// start.
    pub fn new<E>(id: usize, spawned: Result<H, E>) -> (result: Result<Worker<H>, PoolError>)
        ensures
            match spawned {
                Ok(handle) => result matches Ok(worker) && worker.id() == id && worker.thread()
                    == Some(handle),
                Err(_) => result matches Err(e) && e == PoolError::WorkerSpawnFailure,
            },
    {
        match spawned {
            Ok(handle) => Ok(Worker { id, thread: Some(handle) }),
            Err(_) => Err(PoolError::WorkerSpawnFailure),
        }
    }

    /// The worker's id.
    #[verifier::when_used_as_spec(spec_id)]
    pub fn id(&self) -> (id: usize)
        ensures
            id == self.spec_id(),
    {
        self.id
    }

    /// Whether the pool still holds the handle of this worker's thread.
    pub fn has_thread(&self) -> (present: bool)
        ensures
            present <==> self.thread() is Some,
    {
        self.thread.is_some()
    }

    /// Takes the handle out of the record, for the caller to join. The
    /// second time there is nothing left to take.
    pub fn take_thread(&mut self) -> (handle: Option<H>)
        ensures
            handle == old(self).thread(),
            final(self).thread() is None,
            final(self).id() == old(self).id(),
    {
        self.thread.take()
    }
}

} // verus!
