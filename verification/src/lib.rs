//! A fixed-size worker pool: a closable job channel, the dispatch state machine
//! that every worker thread runs, and the pool that owns the workers.
//!
//! The crate holds the decisions. Threads, locks and blocking belong to the
//! program that embeds it: that program guards one [`JobChannel`] with a lock,
//! spawns one thread per worker, and lets each thread drive a [`WorkerLoop`].
//!
//! [`model`] describes a pool at work as a state machine, and [`guarantees`]
//! proves what holds of every run. [`http`] holds what the server that runs
//! on the pool answers to a request.
pub mod channel;
pub mod error;
pub mod guarantees;
pub mod http;
pub mod model;
pub mod pool;
pub mod worker;

pub use channel::{ChannelView, JobChannel, Received};
pub use error::PoolError;
pub use pool::{PoolView, ThreadPool};
pub use worker::{Step, Worker, WorkerLoop, WorkerState};
