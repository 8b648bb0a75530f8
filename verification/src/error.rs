//! Errors that the pool reports to the caller of `new` and `execute`.

use vstd::prelude::*;

verus! {

/// Why a pool operation was refused.
#[derive(Clone, Copy, Debug, PartialEq, Eq, Structural)]
pub enum PoolError {
    /// A pool was asked for without any worker.
    InvalidSize,
    /// A job was submitted after the queue had been closed.
    QueueClosed,
}

/// How the execution of one job ended.
#[derive(Clone, Copy, Debug, PartialEq, Eq, Structural)]
pub enum JobOutcome {
    /// The job ran to its end.
    Completed,
    /// The job raised a fault of its own while it ran.
    Faulted,
}

/// The record of a job that faulted: who ran it, and which submission it was.
#[derive(Clone, Copy, Debug, PartialEq, Eq, Structural)]
pub struct FaultReport {
    /// Index of the worker that ran the job.
    pub worker: usize,
    /// Ordinal of the job: how many jobs had been submitted before it.
    pub ordinal: u64,
}

} // verus!
