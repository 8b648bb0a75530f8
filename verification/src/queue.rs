//! The FIFO hand-off between producers and workers.

use std::collections::VecDeque;
use vstd::prelude::*;
use crate::error::PoolError;

verus! {

/// What a queue is, mathematically: the jobs that wait, oldest first, the
/// number of jobs that have already left, and whether it has been closed.
pub struct QueueView<J> {
    pub pending: Seq<J>,
    pub taken: nat,
    pub closed: bool,
}

/// What a worker is told when it asks the queue for a job.
pub enum Take<J> {
    /// The oldest pending job, with its submission ordinal.
    Job { ordinal: u64, job: J },
    /// Nothing is pending and the queue is open: the worker has to wait.
    Wait,
    /// Nothing is pending and the queue is closed: the worker has to stop.
    Closed,
}

impl<J> QueueView<J> {
    /// The queue that nothing has gone through yet.
    pub open spec fn empty() -> Self {
        QueueView { pending: Seq::empty(), taken: 0, closed: false }
    }

    /// Number of jobs accepted so far; also the ordinal of the next one.
    pub open spec fn submitted(self) -> nat {
        self.taken + self.pending.len()
    }

    /// Whether a submission is accepted.
    pub open spec fn accepts(self) -> bool {
        !self.closed
    }

    /// The queue after `job` was accepted.
    pub open spec fn submit(self, job: J) -> Self {
        QueueView { pending: self.pending.push(job), ..self }
    }

    /// The queue after its oldest job has left.
    pub open spec fn take(self) -> Self
        recommends
            self.pending.len() > 0,
    {
        QueueView { pending: self.pending.drop_first(), taken: self.taken + 1, ..self }
    }

    /// The queue after it was closed.
    pub open spec fn close(self) -> Self {
        QueueView { closed: true, ..self }
    }

    /// The queue after the jobs of `jobs` were accepted one after the other.
    pub open spec fn submit_all(self, jobs: Seq<J>) -> Self
        decreases jobs.len(),
    {
        if jobs.len() == 0 {
            self
        } else {
            self.submit_all(jobs.drop_last()).submit(jobs.last())
        }
    }

    /// The queue after `n` jobs have left it.
    pub open spec fn take_n(self, n: nat) -> Self
        decreases n,
    {
        if n == 0 {
            self
        } else {
            self.take_n((n - 1) as nat).take()
        }
    }
}

/// A FIFO queue of jobs of type `J`, which numbers the jobs as they come in.
pub struct JobQueue<J> {
    pending: VecDeque<J>,
    taken: u64,
    closed: bool,
}

impl<J> View for JobQueue<J> {
    type V = QueueView<J>;

    closed spec fn view(&self) -> QueueView<J> {
        QueueView { pending: self.pending@, taken: self.taken as nat, closed: self.closed }
    }
}

impl<J> JobQueue<J> {
    /// The ordinals of all jobs accepted so far fit in a `u64`.
    pub open spec fn wf(&self) -> bool {
        self@.submitted() <= u64::MAX
    }

    /// An open queue without jobs.
    pub fn new() -> (queue: Self)
        ensures
            queue.wf(),
            queue@ == QueueView::<J>::empty(),
    {
        JobQueue { pending: VecDeque::new(), taken: 0, closed: false }
    }

    /// Appends `job` behind every pending job, unless the queue is closed.
    pub fn submit(&mut self, job: J) -> (result: Result<(), PoolError>)
        requires
            old(self).wf(),
            old(self)@.submitted() < u64::MAX,
        ensures
            final(self).wf(),
            old(self)@.accepts() ==> result == Ok::<(), PoolError>(()) && final(self)@ == old(
                self,
            )@.submit(job),
            !old(self)@.accepts() ==> result == Err::<(), PoolError>(PoolError::QueueClosed)
                && final(self)@ == old(self)@,
    {
        if self.closed {
            Err(PoolError::QueueClosed)
        } else {
            self.pending.push_back(job);
            Ok(())
        }
    }

    /// Removes the oldest pending job and hands it out with its ordinal. With
    /// nothing pending the queue stays as it is, and the answer tells an open
    /// queue (`Wait`) from a closed one (`Closed`).
    pub fn take(&mut self) -> (result: Take<J>)
        requires
            old(self).wf(),
        ensures
            final(self).wf(),
            old(self)@.pending.len() > 0 ==> final(self)@ == old(self)@.take() && result == (
            Take::Job { ordinal: old(self)@.taken as u64, job: old(self)@.pending[0] }),
            old(self)@.pending.len() == 0 ==> final(self)@ == old(self)@ && result == (if old(
                self,
            )@.closed {
                Take::<J>::Closed
            } else {
                Take::<J>::Wait
            }),
    {
        match self.pending.pop_front() {
            Some(job) => {
                let ordinal: u64 = self.taken;
                self.taken = self.taken + 1;
                Take::Job { ordinal, job }
            },
            None => {
                if self.closed {
                    Take::Closed
                } else {
                    Take::Wait
                }
            },
        }
    }

    /// Closes the queue: from now on every submission is refused. What is
    /// pending stays, and a second call changes nothing.
    pub fn close(&mut self)
        requires
            old(self).wf(),
        ensures
            final(self).wf(),
            final(self)@ == old(self)@.close(),
    {
        self.closed = true;
    }

    /// Number of jobs that wait.
    pub fn len(&self) -> (n: usize)
        ensures
            n == self@.pending.len(),
    {
        self.pending.len()
    }

    /// Whether no job waits.
    pub fn is_empty(&self) -> (b: bool)
        ensures
            b == (self@.pending.len() == 0),
    {
        self.pending.len() == 0
    }

    /// Whether the queue has been closed.
    pub fn is_closed(&self) -> (b: bool)
        ensures
            b == self@.closed,
    {
        self.closed
    }

    /// Number of jobs that have left the queue.
    pub fn taken(&self) -> (n: u64)
        ensures
            n == self@.taken,
    {
        self.taken
    }

    /// Number of jobs accepted so far.
    pub fn submitted(&self) -> (n: u64)
        requires
            self.wf(),
        ensures
            n == self@.submitted(),
    {
        self.taken + self.pending.len() as u64
    }
}

/// Submissions line up behind what is pending, in the order in which they
/// were made, and neither the count of jobs taken nor the closed flag moves.
pub proof fn lemma_submit_all_appends<J>(queue: QueueView<J>, jobs: Seq<J>)
    ensures
        queue.submit_all(jobs).pending == queue.pending + jobs,
        queue.submit_all(jobs).taken == queue.taken,
        queue.submit_all(jobs).closed == queue.closed,
    decreases jobs.len(),
{
    if jobs.len() > 0 {
        lemma_submit_all_appends(queue, jobs.drop_last());
    }
}

/// Taking `n` jobs removes the `n` oldest ones and nothing else.
pub proof fn lemma_take_n_skips<J>(queue: QueueView<J>, n: nat)
    requires
        n <= queue.pending.len(),
    ensures
        queue.take_n(n).pending == queue.pending.skip(n as int),
        queue.take_n(n).taken == queue.taken + n,
        queue.take_n(n).closed == queue.closed,
    decreases n,
{
    if n > 0 {
        lemma_take_n_skips(queue, (n - 1) as nat);
    }
}

/// First in, first out: when `jobs` are submitted to a queue with nothing
/// pending, the job that leaves after `i` others have left is `jobs[i]`, and
/// its ordinal is `i` past the number of jobs taken before.
pub proof fn lemma_fifo<J>(queue: QueueView<J>, jobs: Seq<J>, i: nat)
    requires
        queue.pending.len() == 0,
        i < jobs.len(),
    ensures
        queue.submit_all(jobs).take_n(i).pending.len() > 0,
        queue.submit_all(jobs).take_n(i).pending[0] == jobs[i as int],
        queue.submit_all(jobs).take_n(i).taken == queue.taken + i,
{
    lemma_submit_all_appends(queue, jobs);
    lemma_take_n_skips(queue.submit_all(jobs), i);
}

/// No job is lost and none is made up: whatever is submitted and taken, the
/// number of jobs accepted is the number taken plus the number pending.
pub proof fn lemma_nothing_lost<J>(queue: QueueView<J>, jobs: Seq<J>, n: nat)
    requires
        n <= queue.pending.len() + jobs.len(),
    ensures
        queue.submit_all(jobs).take_n(n).submitted() == queue.submitted() + jobs.len(),
{
    lemma_submit_all_appends(queue, jobs);
    lemma_take_n_skips(queue.submit_all(jobs), n);
}

/// Closing twice is closing once, and closing keeps what is pending.
pub proof fn lemma_close_idempotent<J>(queue: QueueView<J>)
    ensures
        queue.close().close() == queue.close(),
        queue.close().pending == queue.pending,
        queue.close().taken == queue.taken,
        !queue.close().accepts(),
{
}

/// A job leaves the queue once: two takes never hand out the same pending
/// job, and never the same ordinal.
pub proof fn lemma_take_is_exclusive<J>(queue: QueueView<J>, first: nat, second: nat)
    requires
        first < second < queue.pending.len(),
    ensures
        queue.take_n(first).pending[0] == queue.pending[first as int],
        queue.take_n(second).pending[0] == queue.pending[second as int],
        queue.take_n(first).taken != queue.take_n(second).taken,
        queue.take_n(first).take().pending.len() == queue.pending.len() - first - 1,
{
    lemma_take_n_skips(queue, first);
    lemma_take_n_skips(queue, second);
}

} // verus!
