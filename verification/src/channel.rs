//! The job channel: an unbounded queue of jobs, first in first out, that can
//! be closed from the producer's side.
//!
//! A [`JobChannel`] is a plain value. Where several threads share one, they
//! hold it under a lock and take the lock for one call at a time; a receiver
//! that finds the channel [`Received::Empty`] waits outside this crate and
//! asks again.
use std::collections::VecDeque;
use vstd::prelude::*;

verus! {

/// What one attempt to receive gave.
#[derive(Debug)]
pub enum Received<T> {
    /// The job at the head of the queue, which has left the channel.
    Job(T),
    /// Nothing is queued, and the channel is still open: a job may yet come.
    Empty,
    /// Nothing is queued, and the channel is closed: no job will ever come.
    Closed,
}

/// The mathematical content of a channel.
#[verifier::ext_equal]
pub struct ChannelView<T> {
    /// The jobs that were sent and not yet received, oldest first.
    pub pending: Seq<T>,
    /// Whether the producer has closed the channel.
    pub closed: bool,
}

impl<T> ChannelView<T> {
    /// The channel as it is created: open, with nothing queued.
    pub open spec fn fresh() -> Self {
        ChannelView { pending: Seq::empty(), closed: false }
    }

    /// Whether a job sent to this channel is taken in.
    pub open spec fn takes_jobs(self) -> bool {
        !self.closed
    }

    /// The channel after an attempt to send `job`: an open channel queues it
    /// behind all others, a closed one is left as it was.
    pub open spec fn send(self, job: T) -> Self {
        if self.closed {
            self
        } else {
            ChannelView { pending: self.pending.push(job), closed: self.closed }
        }
    }

    /// The channel after the producer closed it. What is queued stays queued.
    pub open spec fn close(self) -> Self {
        ChannelView { pending: self.pending, closed: true }
    }

    /// What an attempt to receive gives: the oldest job if there is one,
    /// else whether the channel is closed.
    pub open spec fn receive(self) -> Received<T> {
        if self.pending.len() > 0 {
            Received::Job(self.pending.first())
        } else if self.closed {
            Received::Closed
        } else {
            Received::Empty
        }
    }

    /// The channel after an attempt to receive: the oldest job, if there was
    /// one, has left it.
    pub open spec fn after_receive(self) -> Self {
        if self.pending.len() > 0 {
            ChannelView { pending: self.pending.drop_first(), closed: self.closed }
        } else {
            self
        }
    }
}

/// An unbounded first-in-first-out queue of jobs with a closed state.
#[derive(Debug)]
pub struct JobChannel<T> {
    queue: VecDeque<T>,
    closed: bool,
}

impl<T> View for JobChannel<T> {
    type V = ChannelView<T>;

    closed spec fn view(&self) -> ChannelView<T> {
        ChannelView { pending: self.queue@, closed: self.closed }
    }
}

impl<T> JobChannel<T> {
    /// An open channel with nothing queued.
    pub fn new() -> (channel: Self)
        ensures
            channel@ == ChannelView::<T>::fresh(),
    {
        JobChannel { queue: VecDeque::new(), closed: false }
    }

    /// Queues `job` behind all others and returns at once. A closed channel
    /// takes nothing and hands the job back.
    pub fn send(&mut self, job: T) -> (result: Result<(), T>)
        ensures
            final(self)@ == old(self)@.send(job),
            result == if old(self)@.takes_jobs() { Ok::<(), T>(()) } else { Err::<(), T>(job) },
    {
        if self.closed {
            Err(job)
        } else {
            self.queue.push_back(job);
            Ok(())
        }
    }

    /// Takes the oldest job off the queue, if there is one. Never waits: on
    /// an empty channel it says whether a job may still come.
    pub fn receive(&mut self) -> (received: Received<T>)
        ensures
            received == old(self)@.receive(),
            final(self)@ == old(self)@.after_receive(),
    {
        match self.queue.pop_front() {
            Some(job) => Received::Job(job),
            None => {
                if self.closed {
                    Received::Closed
                } else {
                    Received::Empty
                }
            },
        }
    }

    /// Closes the channel. Jobs already queued stay and are still handed
    /// out; closing a closed channel changes nothing.
    pub fn close(&mut self)
        ensures
            final(self)@ == old(self)@.close(),
    {
        self.closed = true;
    }

    /// Whether the channel has been closed.
    pub fn is_closed(&self) -> (closed: bool)
        ensures
            closed == self@.closed,
    {
        self.closed
    }

    /// The number of jobs that wait in the queue.
    pub fn len(&self) -> (n: usize)
        ensures
            n == self@.pending.len(),
    {
        self.queue.len()
    }

    /// Whether no job waits in the queue.
    pub fn is_empty(&self) -> (empty: bool)
        ensures
            empty <==> self@.pending.len() == 0,
    {
        self.queue.len() == 0
    }
}

} // verus!
