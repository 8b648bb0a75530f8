//! The pool as a mathematical state machine: its states, its steps, the
//! invariant that every step keeps, and what follows from that invariant.

use vstd::prelude::*;
use vstd::set_lib::{lemma_int_range, lemma_len_subset, set_int_range};
use crate::error::{FaultReport, JobOutcome};
use crate::queue::QueueView;

verus! {

/// Where a worker stands in its loop.
#[derive(Clone, Copy, Debug, PartialEq, Eq, Structural)]
pub enum WorkerState {
    /// Ready to ask the queue for a job.
    Running,
    /// Busy with the job of the given ordinal.
    Executing { ordinal: u64 },
    /// Has seen the closed queue and left its loop for good.
    Terminated,
}

/// One entry of the pool's history: a job that a worker has brought to an end.
#[derive(Clone, Copy, Debug, PartialEq, Eq, Structural)]
pub struct Finished {
    /// Index of the worker that ran the job.
    pub worker: usize,
    /// Ordinal of the job.
    pub ordinal: u64,
    /// How the job ended.
    pub outcome: JobOutcome,
}

/// Whether a worker in `state` is busy with the job of ordinal `ordinal`.
pub open spec fn runs(state: WorkerState, ordinal: int) -> bool {
    state matches WorkerState::Executing { ordinal: o } && o == ordinal
}

/// Whether the history `finished` holds the job of ordinal `ordinal`.
pub open spec fn ended(finished: Seq<Finished>, ordinal: int) -> bool {
    exists|k: int| 0 <= k < finished.len() && (#[trigger] finished[k]).ordinal == ordinal
}

/// Whether one of `workers` is busy with the job of ordinal `ordinal`.
pub open spec fn busy_with(workers: Seq<WorkerState>, ordinal: int) -> bool {
    exists|i: int| 0 <= i < workers.len() && #[trigger] runs(workers[i], ordinal)
}

/// What a pool is, mathematically: the state of each worker, the queue, and
/// the jobs that have ended, in the order in which they ended.
pub struct PoolView<J> {
    pub workers: Seq<WorkerState>,
    pub queue: QueueView<J>,
    pub finished: Seq<Finished>,
}

impl<J> PoolView<J> {
    /// A pool of `size` workers that has seen no job yet.
    pub open spec fn fresh(size: nat) -> Self {
        PoolView {
            workers: Seq::new(size, |i: int| WorkerState::Running),
            queue: QueueView::empty(),
            finished: Seq::empty(),
        }
    }

    /// Number of workers.
    pub open spec fn size(self) -> nat {
        self.workers.len()
    }

    /// Whether `worker` is the index of a worker that is ready to take a job.
    pub open spec fn is_running(self, worker: int) -> bool {
        0 <= worker < self.workers.len() && self.workers[worker] is Running
    }

    /// Whether `worker` is the index of a worker that is busy with a job.
    pub open spec fn is_busy(self, worker: int) -> bool {
        0 <= worker < self.workers.len() && self.workers[worker] is Executing
    }

    /// Whether the job of ordinal `ordinal` has ended.
    pub open spec fn is_finished(self, ordinal: int) -> bool {
        ended(self.finished, ordinal)
    }

    /// Whether some worker is busy with the job of ordinal `ordinal`.
    pub open spec fn is_executing(self, ordinal: int) -> bool {
        busy_with(self.workers, ordinal)
    }

    /// Whether no worker is busy.
    pub open spec fn is_quiet(self) -> bool {
        forall|i: int| 0 <= i < self.workers.len() ==> !(#[trigger] self.workers[i] is Executing)
    }

    /// Whether nothing is pending and no worker is busy.
    pub open spec fn is_drained(self) -> bool {
        self.queue.pending.len() == 0 && self.is_quiet()
    }

    /// Whether every worker has left its loop.
    pub open spec fn is_terminated(self) -> bool {
        forall|i: int| 0 <= i < self.workers.len() ==> #[trigger] self.workers[i] is Terminated
    }

    /// The pool after `job` was submitted: it joins the queue if the queue is
    /// open, and is refused without a trace if not.
    pub open spec fn submit(self, job: J) -> Self {
        if self.queue.accepts() {
            PoolView { queue: self.queue.submit(job), ..self }
        } else {
            self
        }
    }

    /// The pool after the ready worker `worker` asked the queue for a job: it
    /// becomes busy with the oldest pending job, or leaves its loop if the
    /// queue is closed and empty, or keeps waiting.
    pub open spec fn dispatch(self, worker: int) -> Self
        recommends
            self.is_running(worker),
    {
        if self.queue.pending.len() > 0 {
            PoolView {
                workers: self.workers.update(
                    worker,
                    WorkerState::Executing { ordinal: self.queue.taken as u64 },
                ),
                queue: self.queue.take(),
                ..self
            }
        } else if self.queue.closed {
            PoolView { workers: self.workers.update(worker, WorkerState::Terminated), ..self }
        } else {
            self
        }
    }

    /// The pool after the busy worker `worker` ended its job with `outcome`:
    /// the job joins the history and the worker is ready again.
    pub open spec fn complete(self, worker: int, outcome: JobOutcome) -> Self
        recommends
            self.is_busy(worker),
    {
        PoolView {
            workers: self.workers.update(worker, WorkerState::Running),
            finished: self.finished.push(
                Finished {
                    worker: worker as usize,
                    ordinal: self.workers[worker]->ordinal,
                    outcome,
                },
            ),
            ..self
        }
    }

    /// The pool after shutdown was asked for: the queue is closed.
    pub open spec fn shutdown(self) -> Self {
        PoolView { queue: self.queue.close(), ..self }
    }

    /// What holds of a pool in every state it can reach.
    pub open spec fn inv(self) -> bool {
        &&& self.workers.len() >= 1
        &&& self.workers.len() <= usize::MAX
        &&& self.queue.submitted() <= u64::MAX
        // what has ended was taken from the queue, by a worker of the pool
        &&& forall|k: int|
            0 <= k < self.finished.len() ==> (#[trigger] self.finished[k]).ordinal
                < self.queue.taken && self.finished[k].worker < self.workers.len()
        // no job ends twice
        &&& forall|a: int, b: int|
            0 <= a < b < self.finished.len() ==> (#[trigger] self.finished[a]).ordinal != (
            #[trigger] self.finished[b]).ordinal
        // what a worker is busy with was taken from the queue and has not ended
        &&& forall|i: int, o: int|
            0 <= i < self.workers.len() && #[trigger] runs(self.workers[i], o) ==> o
                < self.queue.taken && !ended(self.finished, o)
        // no two workers are busy with the same job
        &&& forall|i: int, j: int, o: int|
            0 <= i < j < self.workers.len() && #[trigger] runs(self.workers[i], o) ==> !(
            #[trigger] runs(self.workers[j], o))
        // every job taken from the queue has ended or is with a worker
        &&& forall|o: int|
            0 <= o < self.queue.taken ==> #[trigger] ended(self.finished, o) || busy_with(
                self.workers,
                o,
            )
        // a worker ends its jobs in the order in which it took them
        &&& forall|a: int, b: int|
            0 <= a < b < self.finished.len() && (#[trigger] self.finished[a]).worker == (
            #[trigger] self.finished[b]).worker ==> self.finished[a].ordinal
                < self.finished[b].ordinal
        &&& forall|i: int, k: int|
            0 <= i < self.workers.len() && 0 <= k < self.finished.len() && (
            #[trigger] self.workers[i]) is Executing && (#[trigger] self.finished[k]).worker == i
                ==> self.finished[k].ordinal < self.workers[i]->ordinal
        // a worker leaves only when the queue is closed and nothing is pending
        &&& forall|i: int|
            0 <= i < self.workers.len() && (#[trigger] self.workers[i]) is Terminated
                ==> self.queue.closed && self.queue.pending.len() == 0
    }
}

/// The reports of the jobs of `finished` that faulted, in the order in which
/// they ended.
pub open spec fn faults_of(finished: Seq<Finished>) -> Seq<FaultReport>
    decreases finished.len(),
{
    if finished.len() == 0 {
        Seq::empty()
    } else if finished.last().outcome == JobOutcome::Faulted {
        faults_of(finished.drop_last()).push(
            FaultReport { worker: finished.last().worker, ordinal: finished.last().ordinal },
        )
    } else {
        faults_of(finished.drop_last())
    }
}

/// The number of jobs of `finished` that ran to their end.
pub open spec fn completed_of(finished: Seq<Finished>) -> nat
    decreases finished.len(),
{
    if finished.len() == 0 {
        0
    } else if finished.last().outcome == JobOutcome::Completed {
        completed_of(finished.drop_last()) + 1
    } else {
        completed_of(finished.drop_last())
    }
}

/// The ordinals of the jobs of `finished`, in the order in which they ended.
pub open spec fn ordinals_of(finished: Seq<Finished>) -> Seq<int> {
    Seq::new(finished.len(), |k: int| finished[k].ordinal as int)
}

/// A fresh pool with at least one worker is in order.
pub proof fn lemma_fresh_inv<J>(size: nat)
    requires
        1 <= size <= usize::MAX,
    ensures
        PoolView::<J>::fresh(size).inv(),
{
}

/// A submission keeps the pool in order.
pub proof fn lemma_submit_inv<J>(pool: PoolView<J>, job: J)
    requires
        pool.inv(),
        pool.queue.submitted() < u64::MAX,
    ensures
        pool.submit(job).inv(),
{
}

/// Shutdown keeps the pool in order.
pub proof fn lemma_shutdown_inv<J>(pool: PoolView<J>)
    requires
        pool.inv(),
    ensures
        pool.shutdown().inv(),
{
}

/// A worker that asks the queue for a job keeps the pool in order.
pub proof fn lemma_dispatch_inv<J>(pool: PoolView<J>, worker: int)
    requires
        pool.inv(),
        pool.is_running(worker),
    ensures
        pool.dispatch(worker).inv(),
{
    let next = pool.dispatch(worker);
    let taken = pool.queue.taken as int;
    assert forall|o: int| 0 <= o < next.queue.taken implies #[trigger] ended(next.finished, o)
        || busy_with(next.workers, o) by {
        if o == taken && pool.queue.pending.len() > 0 {
            assert(runs(next.workers[worker], o));
        } else if !ended(pool.finished, o) {
            assert(busy_with(pool.workers, o));
            let i = choose|i: int| 0 <= i < pool.workers.len() && #[trigger] runs(pool.workers[i], o);
            assert(runs(next.workers[i], o));
        }
    }
}

/// A worker that ends its job keeps the pool in order.
pub proof fn lemma_complete_inv<J>(pool: PoolView<J>, worker: int, outcome: JobOutcome)
    requires
        pool.inv(),
        pool.is_busy(worker),
    ensures
        pool.complete(worker, outcome).inv(),
{
    let next = pool.complete(worker, outcome);
    let ordinal = pool.workers[worker]->ordinal as int;
    let last = pool.finished.len() as int;
    assert(runs(pool.workers[worker], ordinal));
    assert(next.finished[last].ordinal == ordinal);
    assert forall|k: int| 0 <= k < next.finished.len() implies (#[trigger] next.finished[k]).ordinal
        < next.queue.taken && next.finished[k].worker < next.workers.len() by {
        if k < last {
            assert(next.finished[k] == pool.finished[k]);
        }
    }
    assert forall|a: int, b: int| 0 <= a < b < next.finished.len() implies (
    #[trigger] next.finished[a]).ordinal != (#[trigger] next.finished[b]).ordinal by {
        assert(next.finished[a] == pool.finished[a]);
        if b < last {
            assert(next.finished[b] == pool.finished[b]);
        }
    }
    assert forall|i: int, o: int|
        0 <= i < next.workers.len() && #[trigger] runs(next.workers[i], o) implies o
        < next.queue.taken && !ended(next.finished, o) by {
        assert(i != worker);
        assert(runs(pool.workers[i], o));
        if ended(next.finished, o) {
            let k = choose|k: int|
                0 <= k < next.finished.len() && (#[trigger] next.finished[k]).ordinal == o;
            if k < last {
                assert(pool.finished[k].ordinal == o);
            } else {
                if i < worker {
                    assert(!runs(pool.workers[worker], o));
                } else {
                    assert(!runs(pool.workers[i], ordinal));
                }
            }
        }
    }
    assert forall|o: int| 0 <= o < next.queue.taken implies #[trigger] ended(next.finished, o)
        || busy_with(next.workers, o) by {
        if ended(pool.finished, o) {
            let k = choose|k: int|
                0 <= k < pool.finished.len() && (#[trigger] pool.finished[k]).ordinal == o;
            assert(next.finished[k].ordinal == o);
        } else {
            let i = choose|i: int| 0 <= i < pool.workers.len() && #[trigger] runs(pool.workers[i], o);
            if i == worker {
                assert(next.finished[last].ordinal == o);
            } else {
                assert(runs(next.workers[i], o));
            }
        }
    }
    assert forall|a: int, b: int|
        0 <= a < b < next.finished.len() && (#[trigger] next.finished[a]).worker == (
        #[trigger] next.finished[b]).worker implies next.finished[a].ordinal
        < next.finished[b].ordinal by {
        assert(next.finished[a] == pool.finished[a]);
        if b < last {
            assert(next.finished[b] == pool.finished[b]);
        }
    }
    assert forall|i: int, k: int|
        0 <= i < next.workers.len() && 0 <= k < next.finished.len() && (
        #[trigger] next.workers[i]) is Executing && (#[trigger] next.finished[k]).worker
            == i implies next.finished[k].ordinal < next.workers[i]->ordinal by {
        assert(i != worker);
        assert(k < last);
        assert(next.finished[k] == pool.finished[k]);
        assert(next.workers[i] == pool.workers[i]);
    }
}

/// Every job of the history either ran to its end or faulted.
pub proof fn lemma_history_splits(finished: Seq<Finished>)
    ensures
        completed_of(finished) + faults_of(finished).len() == finished.len(),
    decreases finished.len(),
{
    if finished.len() > 0 {
        lemma_history_splits(finished.drop_last());
    }
}

/// Adding one job to the history adds it to exactly one of the two counts.
pub proof fn lemma_history_push(finished: Seq<Finished>, entry: Finished)
    ensures
        entry.outcome == JobOutcome::Faulted ==> faults_of(finished.push(entry)) == faults_of(
            finished,
        ).push(FaultReport { worker: entry.worker, ordinal: entry.ordinal }) && completed_of(
            finished.push(entry),
        ) == completed_of(finished),
        entry.outcome == JobOutcome::Completed ==> faults_of(finished.push(entry)) == faults_of(
            finished,
        ) && completed_of(finished.push(entry)) == completed_of(finished) + 1,
{
    assert(finished.push(entry).drop_last() =~= finished);
}

/// No more jobs have ended than were taken from the queue; and as long as a
/// worker is busy, fewer.
pub proof fn lemma_history_bounded<J>(pool: PoolView<J>)
    requires
        pool.inv(),
    ensures
        pool.finished.len() <= pool.queue.taken,
        (exists|i: int| pool.is_busy(i)) ==> pool.finished.len() < pool.queue.taken,
{
    let ords = ordinals_of(pool.finished);
    let taken = pool.queue.taken as int;
    assert(ords.no_duplicates());
    ords.unique_seq_to_set();
    lemma_int_range(0, taken);
    assert(ords.to_set().subset_of(set_int_range(0, taken)));
    lemma_len_subset(ords.to_set(), set_int_range(0, taken));
    if exists|i: int| pool.is_busy(i) {
        let i = choose|i: int| pool.is_busy(i);
        let o = pool.workers[i]->ordinal as int;
        assert(runs(pool.workers[i], o));
        let rest = set_int_range(0, taken).remove(o);
        assert forall|x: int| ords.to_set().contains(x) implies rest.contains(x) by {
            let k = choose|k: int| 0 <= k < ords.len() && ords[k] == x;
            assert(pool.finished[k].ordinal == x);
        }
        assert(ords.to_set().subset_of(rest));
        lemma_len_subset(ords.to_set(), rest);
    }
}

/// No loss and no duplication: once nothing is pending and no worker is
/// busy, the jobs that have ended are exactly the jobs that were submitted,
/// each of them once.
pub proof fn lemma_every_job_ends_once<J>(pool: PoolView<J>)
    requires
        pool.inv(),
        pool.is_drained(),
    ensures
        pool.finished.len() == pool.queue.submitted(),
        forall|o: int| 0 <= o < pool.queue.submitted() ==> #[trigger] pool.is_finished(o),
        forall|k: int|
            0 <= k < pool.finished.len() ==> (#[trigger] pool.finished[k]).ordinal
                < pool.queue.submitted(),
        forall|a: int, b: int|
            0 <= a < b < pool.finished.len() ==> (#[trigger] pool.finished[a]).ordinal != (
            #[trigger] pool.finished[b]).ordinal,
{
    let ords = ordinals_of(pool.finished);
    let taken = pool.queue.taken as int;
    assert forall|o: int| 0 <= o < taken implies #[trigger] ended(pool.finished, o) by {
        if busy_with(pool.workers, o) {
            let i = choose|i: int| 0 <= i < pool.workers.len() && #[trigger] runs(pool.workers[i], o);
            assert(pool.workers[i] is Executing);
        }
    }
    assert(ords.no_duplicates());
    ords.unique_seq_to_set();
    lemma_int_range(0, taken);
    assert forall|x: int| set_int_range(0, taken).contains(x) implies ords.to_set().contains(
        x,
    ) by {
        assert(ended(pool.finished, x));
        let k = choose|k: int| 0 <= k < pool.finished.len() && (#[trigger] pool.finished[k]).ordinal == x;
        assert(ords[k] == x);
    }
    assert(ords.to_set() =~= set_int_range(0, taken));
}

/// With a single worker, jobs end in the order in which they were submitted:
/// the job that ends after `k` others is the one of ordinal `k`.
pub proof fn lemma_single_worker_order<J>(pool: PoolView<J>, k: int)
    requires
        pool.inv(),
        pool.size() == 1,
        0 <= k < pool.finished.len(),
    ensures
        pool.finished[k].ordinal == k,
        pool.finished[k].worker == 0,
    decreases k,
{
    let ordinal = pool.finished[k].ordinal as int;
    if k > 0 {
        lemma_single_worker_order(pool, k - 1);
        assert(pool.finished[k - 1].worker == pool.finished[k].worker);
    }
    if ordinal != k {
        assert(ended(pool.finished, k) || busy_with(pool.workers, k));
        if ended(pool.finished, k) {
            let m = choose|m: int|
                0 <= m < pool.finished.len() && (#[trigger] pool.finished[m]).ordinal == k;
            if m < k {
                lemma_single_worker_order(pool, m);
            } else {
                assert(pool.finished[k].worker == pool.finished[m].worker);
            }
        } else {
            let i = choose|i: int| 0 <= i < pool.workers.len() && #[trigger] runs(pool.workers[i], k);
            assert(pool.workers[i] is Executing && pool.finished[k].worker == i);
        }
    }
}

/// Two workers run two jobs side by side: when two jobs are pending, two
/// ready workers each get one without either job having to end first, and
/// the two jobs may then end in either order.
pub proof fn lemma_two_jobs_side_by_side<J>(pool: PoolView<J>, a: int, b: int)
    requires
        pool.inv(),
        a != b,
        pool.is_running(a),
        pool.is_running(b),
        pool.queue.pending.len() >= 2,
    ensures
        pool.dispatch(a).is_running(b),
        pool.dispatch(a).dispatch(b).inv(),
        runs(pool.dispatch(a).dispatch(b).workers[a], pool.queue.taken as int),
        runs(pool.dispatch(a).dispatch(b).workers[b], (pool.queue.taken + 1) as int),
        pool.dispatch(a).dispatch(b).is_busy(a),
        pool.dispatch(a).dispatch(b).is_busy(b),
        forall|first: JobOutcome, second: JobOutcome|
            #![trigger pool.dispatch(a).dispatch(b).complete(a, first).complete(b, second)]
            pool.dispatch(a).dispatch(b).complete(a, first).complete(b, second).inv(),
        forall|first: JobOutcome, second: JobOutcome|
            #![trigger pool.dispatch(a).dispatch(b).complete(b, first).complete(a, second)]
            pool.dispatch(a).dispatch(b).complete(b, first).complete(a, second).inv(),
{
    let one = pool.dispatch(a);
    lemma_dispatch_inv(pool, a);
    assert(one.queue.pending.len() >= 1);
    let both = one.dispatch(b);
    lemma_dispatch_inv(one, b);
    assert forall|first: JobOutcome, second: JobOutcome|
        #![trigger both.complete(a, first).complete(b, second)]
        both.complete(a, first).complete(b, second).inv() by {
        lemma_complete_inv(both, a, first);
        lemma_complete_inv(both.complete(a, first), b, second);
    }
    assert forall|first: JobOutcome, second: JobOutcome|
        #![trigger both.complete(b, first).complete(a, second)]
        both.complete(b, first).complete(a, second).inv() by {
        lemma_complete_inv(both, b, first);
        lemma_complete_inv(both.complete(b, first), a, second);
    }
}

/// Shutdown is final and idempotent: a second shutdown changes nothing, and
/// after a shutdown no submission is accepted or leaves a trace.
pub proof fn lemma_shutdown_refuses<J>(pool: PoolView<J>, job: J)
    ensures
        pool.shutdown().shutdown() == pool.shutdown(),
        !pool.shutdown().queue.accepts(),
        pool.shutdown().submit(job) == pool.shutdown(),
        pool.shutdown().workers == pool.workers,
        pool.shutdown().queue.pending == pool.queue.pending,
        pool.shutdown().finished == pool.finished,
{
}

/// After a shutdown, a ready worker that finds nothing pending leaves its
/// loop, and the others are not touched.
pub proof fn lemma_closed_worker_leaves<J>(pool: PoolView<J>, worker: int)
    requires
        pool.is_running(worker),
        pool.queue.closed,
        pool.queue.pending.len() == 0,
    ensures
        pool.dispatch(worker).workers[worker] is Terminated,
        pool.dispatch(worker).workers == pool.workers.update(worker, WorkerState::Terminated),
        pool.dispatch(worker).queue == pool.queue,
{
}

/// Once every worker has left its loop the pool is at rest: no worker is
/// ready or busy, the queue is closed, nothing is pending, and every job
/// that was ever submitted has ended.
pub proof fn lemma_terminated_is_at_rest<J>(pool: PoolView<J>)
    requires
        pool.inv(),
        pool.is_terminated(),
    ensures
        forall|i: int| !pool.is_running(i) && !pool.is_busy(i),
        pool.queue.closed,
        pool.is_drained(),
        pool.finished.len() == pool.queue.submitted(),
{
    assert(pool.workers[0] is Terminated);
    lemma_every_job_ends_once(pool);
}

/// A fault stays with the job that raised it: the worker is ready again,
/// the queue and the other workers are as before, the fault is on record
/// with the worker and the job's ordinal, and the worker takes the next
/// pending job as if nothing had happened.
pub proof fn lemma_fault_is_contained<J>(pool: PoolView<J>, worker: int)
    requires
        pool.inv(),
        pool.is_busy(worker),
    ensures
        pool.complete(worker, JobOutcome::Faulted).inv(),
        pool.complete(worker, JobOutcome::Faulted).is_running(worker),
        pool.complete(worker, JobOutcome::Faulted).queue == pool.queue,
        pool.complete(worker, JobOutcome::Faulted).workers == pool.workers.update(
            worker,
            WorkerState::Running,
        ),
        pool.complete(worker, JobOutcome::Faulted).finished.last() == (Finished {
            worker: worker as usize,
            ordinal: pool.workers[worker]->ordinal,
            outcome: JobOutcome::Faulted,
        }),
        faults_of(pool.complete(worker, JobOutcome::Faulted).finished) == faults_of(
            pool.finished,
        ).push(FaultReport { worker: worker as usize, ordinal: pool.workers[worker]->ordinal }),
        pool.queue.pending.len() > 0 ==> runs(
            pool.complete(worker, JobOutcome::Faulted).dispatch(worker).workers[worker],
            pool.queue.taken as int,
        ),
{
    lemma_complete_inv(pool, worker, JobOutcome::Faulted);
    lemma_history_push(
        pool.finished,
        Finished {
            worker: worker as usize,
            ordinal: pool.workers[worker]->ordinal,
            outcome: JobOutcome::Faulted,
        },
    );
}

/// No job is stranded: as long as a job is pending, every worker is still in
/// its loop, ready or busy, and a ready worker that asks gets the oldest
/// pending job.
pub proof fn lemma_no_job_is_stranded<J>(pool: PoolView<J>, worker: int)
    requires
        pool.inv(),
        pool.queue.pending.len() > 0,
        0 <= worker < pool.size(),
    ensures
        pool.is_running(worker) || pool.is_busy(worker),
        pool.is_running(worker) ==> runs(
            pool.dispatch(worker).workers[worker],
            pool.queue.taken as int,
        ) && pool.dispatch(worker).queue.pending == pool.queue.pending.drop_first(),
{
}

/// No job is run twice: a job that a worker is busy with is with no other
/// worker and has not ended, and a job that has ended is with no worker.
pub proof fn lemma_no_job_runs_twice<J>(pool: PoolView<J>, ordinal: int, a: int, b: int)
    requires
        pool.inv(),
        0 <= a < pool.size(),
        0 <= b < pool.size(),
        a != b,
    ensures
        !(runs(pool.workers[a], ordinal) && runs(pool.workers[b], ordinal)),
        !(runs(pool.workers[a], ordinal) && pool.is_finished(ordinal)),
        pool.is_finished(ordinal) ==> !pool.is_executing(ordinal),
{
    if a < b {
        assert(runs(pool.workers[a], ordinal) ==> !runs(pool.workers[b], ordinal));
    } else {
        assert(runs(pool.workers[b], ordinal) ==> !runs(pool.workers[a], ordinal));
    }
    if pool.is_finished(ordinal) && pool.is_executing(ordinal) {
        let i = choose|i: int| 0 <= i < pool.workers.len() && #[trigger] runs(pool.workers[i], ordinal);
        assert(!ended(pool.finished, ordinal));
    }
}

} // verus!
