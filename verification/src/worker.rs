//! One worker of the pool: an index and a place in the take/execute loop.

use vstd::prelude::*;
use crate::model::WorkerState;
use crate::queue::{JobQueue, Take};

verus! {

/// A worker, known by the index it was created with.
pub struct Worker {
    id: usize,
    state: WorkerState,
}

/// The state in which a ready worker finds itself after the queue, in the
/// state `queue`, has answered its request for a job.
pub open spec fn state_after_take<J>(queue: crate::queue::QueueView<J>) -> WorkerState {
    if queue.pending.len() > 0 {
        WorkerState::Executing { ordinal: queue.taken as u64 }
    } else if queue.closed {
        WorkerState::Terminated
    } else {
        WorkerState::Running
    }
}

impl Worker {
    /// The index of the worker.
    pub closed spec fn spec_id(&self) -> usize {
        self.id
    }

    /// Where the worker stands in its loop.
    pub closed spec fn spec_state(&self) -> WorkerState {
        self.state
    }

    /// A worker with index `id`, ready to take its first job.
    pub fn new(id: usize) -> (worker: Worker)
        ensures
            worker.id() == id,
            worker.state() == WorkerState::Running,
    {
        Worker { id, state: WorkerState::Running }
    }

    /// The index of the worker.
    #[verifier::when_used_as_spec(spec_id)]
    pub fn id(&self) -> (id: usize)
        ensures
            id == self.spec_id(),
    {
        self.id
    }

    /// Where the worker stands in its loop.
    #[verifier::when_used_as_spec(spec_state)]
    pub fn state(&self) -> (state: WorkerState)
        ensures
            state == self.spec_state(),
    {
        self.state
    }

    /// Asks `queue` for a job. The worker becomes busy with the job it is
    /// handed, leaves its loop on a closed and empty queue, and stays ready
    /// when told to wait. The queue's answer is passed on to the caller, who
    /// runs the job.
    pub fn step<J>(&mut self, queue: &mut JobQueue<J>) -> (answer: Take<J>)
        requires
            old(self).state() is Running,
            old(queue).wf(),
        ensures
            final(queue).wf(),
            final(self).id() == old(self).id(),
            final(self).state() == state_after_take(old(queue)@),
            old(queue)@.pending.len() > 0 ==> final(queue)@ == old(queue)@.take() && answer == (
            Take::Job { ordinal: old(queue)@.taken as u64, job: old(queue)@.pending[0] }),
            old(queue)@.pending.len() == 0 ==> final(queue)@ == old(queue)@ && answer == (if old(
                queue,
            )@.closed {
                Take::<J>::Closed
            } else {
                Take::<J>::Wait
            }),
    {
        let answer = queue.take();
        match &answer {
            Take::Job { ordinal, job: _ } => {
                self.state = WorkerState::Executing { ordinal: *ordinal };
            },
            Take::Wait => {},
            Take::Closed => {
                self.state = WorkerState::Terminated;
            },
        }
        answer
    }

    /// Ends the job the worker is busy with and makes the worker ready for
    /// the next one, however the job ended. Returns the ordinal of the job.
    pub fn finish(&mut self) -> (ordinal: u64)
        requires
            old(self).state() is Executing,
        ensures
            final(self).id() == old(self).id(),
            final(self).state() == WorkerState::Running,
            ordinal == old(self).state()->ordinal,
    {
        match self.state {
            WorkerState::Executing { ordinal } => {
                self.state = WorkerState::Running;
                ordinal
            },
            _ => unreached(),
        }
    }
}

} // verus!
