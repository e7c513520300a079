//! What can go wrong when a pool is built or a job is submitted.
use vstd::prelude::*;

verus! {

/// The failures that the pool reports to its caller.
#[derive(Clone, Copy, Debug, PartialEq, Eq, Structural)]
pub enum PoolError {
    /// A pool of zero workers was asked for.
    InvalidSize,
    /// A worker's thread could not be started.
    WorkerSpawnFailure,
    /// The pool has begun to shut down and takes no more jobs.
    QueueClosed,
    /// The pool still takes jobs, but the channel refused this one.
    SendFailure,
}

impl PoolError {
    /// The text of the message for this error.
    pub open spec fn spec_message(self) -> Seq<char> {
        match self {
            PoolError::InvalidSize => "the number of workers must be at least 1"@,
            PoolError::WorkerSpawnFailure => "a worker thread could not be started"@,
            PoolError::QueueClosed => "the pool is shutting down and takes no more jobs"@,
            PoolError::SendFailure => "the job could not be handed to the channel"@,
        }
    }

    /// A message for the person who reads the log.
    pub fn message(&self) -> (text: String)
        ensures
            text@ == self.spec_message(),
    {
        match self {
            PoolError::InvalidSize => "the number of workers must be at least 1".to_string(),
            PoolError::WorkerSpawnFailure => "a worker thread could not be started".to_string(),
            PoolError::QueueClosed => {
                "the pool is shutting down and takes no more jobs".to_string()
            },
            PoolError::SendFailure => "the job could not be handed to the channel".to_string(),
        }
    }
}

} // verus!
