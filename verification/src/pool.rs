//! The pool: a fixed set of workers round one queue.

use vstd::prelude::*;
use crate::error::{FaultReport, JobOutcome, PoolError};
use crate::model::{
    completed_of, faults_of, lemma_complete_inv, lemma_dispatch_inv, lemma_fresh_inv,
    lemma_history_bounded, lemma_history_push, lemma_history_splits, lemma_shutdown_inv,
    lemma_submit_inv, Finished, PoolView, WorkerState,
};
use crate::queue::{JobQueue, Take};
use crate::worker::Worker;

verus! {

/// Whoever runs the jobs that a pool hands out.
pub trait JobRunner<J> {
    /// Runs `job`, the submission of ordinal `ordinal`, on behalf of the
    /// worker of index `worker`, and says how it ended.
    fn run(&mut self, worker: usize, ordinal: u64, job: J) -> JobOutcome;
}

/// A pool of a fixed number of workers that share one FIFO queue of jobs of
/// type `J`.
///
/// The pool decides; it does not run anything. A producer hands jobs to
/// `execute`. Whoever drives worker `w` calls `dispatch(w)` to learn what the
/// worker does next and, once a job that was handed out has been run, calls
/// `complete(w, outcome)`.
pub struct ThreadPool<J> {
    workers: Vec<Worker>,
    queue: JobQueue<J>,
    completed: u64,
    faults: Vec<FaultReport>,
    history: Ghost<Seq<Finished>>,
}

impl<J> View for ThreadPool<J> {
    type V = PoolView<J>;

    closed spec fn view(&self) -> PoolView<J> {
        PoolView {
            workers: Seq::new(self.workers@.len(), |i: int| self.workers@[i].state()),
            queue: self.queue@,
            finished: self.history@,
        }
    }
}

impl<J> ThreadPool<J> {
    /// The pool's books agree with its history: each worker knows its index,
    /// and the counts of ended jobs are those of the history.
    pub closed spec fn books_agree(&self) -> bool {
        &&& self.queue.wf()
        &&& forall|i: int| 0 <= i < self.workers@.len() ==> (#[trigger] self.workers@[i]).id() == i
        &&& self.completed == completed_of(self.history@)
        &&& self.faults@ == faults_of(self.history@)
    }

    /// The pool is in a state that it can reach from a fresh one.
    pub open spec fn wf(&self) -> bool {
        self@.inv() && self.books_agree()
    }

    /// A pool of `size` workers, all of them ready, round an empty open
    /// queue. A pool without workers is refused.
    pub fn new(size: usize) -> (result: Result<ThreadPool<J>, PoolError>)
        ensures
            size == 0 ==> result == Err::<ThreadPool<J>, PoolError>(PoolError::InvalidSize),
            size > 0 ==> result is Ok && result->Ok_0.wf() && result->Ok_0@ == PoolView::<
                J,
            >::fresh(size as nat),
    {
        if size == 0 {
            return Err(PoolError::InvalidSize);
        }
        let mut workers: Vec<Worker> = Vec::with_capacity(size);
        let mut id: usize = 0;
        while id < size
            invariant
                id <= size,
                workers@.len() == id,
                forall|i: int|
                    0 <= i < id ==> (#[trigger] workers@[i]).id() == i && workers@[i].state()
                        == WorkerState::Running,
            decreases size - id,
        {
            workers.push(Worker::new(id));
            id = id + 1;
        }
        let pool = ThreadPool {
            workers,
            queue: JobQueue::new(),
            completed: 0,
            faults: Vec::new(),
            history: Ghost(Seq::empty()),
        };
        proof {
            lemma_fresh_inv::<J>(size as nat);
            assert(pool@.workers =~= PoolView::<J>::fresh(size as nat).workers);
        }
        Ok(pool)
    }

    /// Submits `job`: it joins the queue behind every pending job. Once the
    /// pool has been shut down the job is refused with `QueueClosed` and the
    /// pool stays as it is.
    pub fn execute(&mut self, job: J) -> (result: Result<(), PoolError>)
        requires
            old(self).wf(),
            old(self)@.queue.submitted() < u64::MAX,
        ensures
            final(self).wf(),
            final(self)@ == old(self)@.submit(job),
            old(self)@.queue.accepts() ==> result == Ok::<(), PoolError>(()),
            !old(self)@.queue.accepts() ==> result == Err::<(), PoolError>(
                PoolError::QueueClosed,
            ),
    {
        proof {
            lemma_submit_inv(self@, job);
        }
        self.queue.submit(job)
    }

    /// Closes the queue: what is pending will still be handed out, nothing
    /// new is accepted, and a worker that finds the queue empty leaves its
    /// loop. A second call changes nothing.
    pub fn shutdown(&mut self)
        requires
            old(self).wf(),
        ensures
            final(self).wf(),
            final(self)@ == old(self)@.shutdown(),
    {
        proof {
            lemma_shutdown_inv(self@);
        }
        self.queue.close();
    }

    /// Lets the ready worker `worker` ask the queue for a job, and says what
    /// the worker has to do: run the job it is handed (`Job`), wait for a
    /// submission or a shutdown (`Wait`), or stop (`Closed`).
    pub fn dispatch(&mut self, worker: usize) -> (answer: Take<J>)
        requires
            old(self).wf(),
            old(self)@.is_running(worker as int),
        ensures
            final(self).wf(),
            final(self)@ == old(self)@.dispatch(worker as int),
            old(self)@.queue.pending.len() > 0 ==> answer == (Take::Job {
                ordinal: old(self)@.queue.taken as u64,
                job: old(self)@.queue.pending[0],
            }),
            old(self)@.queue.pending.len() == 0 ==> answer == (if old(self)@.queue.closed {
                Take::<J>::Closed
            } else {
                Take::<J>::Wait
            }),
    {
        proof {
            lemma_dispatch_inv(self@, worker as int);
        }
        let answer = self.workers[worker].step(&mut self.queue);
        proof {
            assert(final(self)@.workers =~= old(self)@.dispatch(worker as int).workers);
        }
        answer
    }

    /// Records that the busy worker `worker` has ended its job with
    /// `outcome`. The job joins the history, a fault is reported with the
    /// worker and the job's ordinal, and the worker is ready again whatever
    /// the outcome was.
    pub fn complete(&mut self, worker: usize, outcome: JobOutcome)
        requires
            old(self).wf(),
            old(self)@.is_busy(worker as int),
        ensures
            final(self).wf(),
            final(self)@ == old(self)@.complete(worker as int, outcome),
    {
        proof {
            lemma_complete_inv(self@, worker as int, outcome);
            lemma_history_bounded(self@.complete(worker as int, outcome));
            lemma_history_splits(self@.complete(worker as int, outcome).finished);
        }
        let ordinal = self.workers[worker].finish();
        let ghost entry = Finished { worker, ordinal, outcome };
        proof {
            lemma_history_push(self.history@, entry);
            self.history@ = self.history@.push(entry);
        }
        match outcome {
            JobOutcome::Completed => {
                self.completed = self.completed + 1;
            },
            JobOutcome::Faulted => {
                self.faults.push(FaultReport { worker, ordinal });
            },
        }
        proof {
            assert(final(self)@.workers =~= old(self)@.complete(worker as int, outcome).workers);
        }
    }

    /// Number of workers.
    pub fn size(&self) -> (n: usize)
        requires
            self.wf(),
        ensures
            n == self@.size(),
            n >= 1,
    {
        self.workers.len()
    }

    /// Where worker `worker` stands in its loop.
    pub fn worker_state(&self, worker: usize) -> (state: WorkerState)
        requires
            worker < self@.size(),
        ensures
            state == self@.workers[worker as int],
    {
        self.workers[worker].state()
    }

    /// Number of jobs that wait in the queue.
    pub fn pending(&self) -> (n: usize)
        ensures
            n == self@.queue.pending.len(),
    {
        self.queue.len()
    }

    /// Number of jobs accepted so far; also the ordinal of the next one.
    pub fn submitted(&self) -> (n: u64)
        requires
            self.wf(),
        ensures
            n == self@.queue.submitted(),
    {
        self.queue.submitted()
    }

    /// Whether the pool has been shut down.
    pub fn is_shut_down(&self) -> (b: bool)
        ensures
            b == self@.queue.closed,
    {
        self.queue.is_closed()
    }

    /// Number of jobs that ran to their end.
    pub fn completed(&self) -> (n: u64)
        requires
            self.wf(),
        ensures
            n == completed_of(self@.finished),
    {
        self.completed
    }

    /// The reports of the jobs that faulted, oldest first.
    pub fn faults(&self) -> (reports: &Vec<FaultReport>)
        requires
            self.wf(),
        ensures
            reports@ == faults_of(self@.finished),
    {
        &self.faults
    }

    /// Whether nothing is pending and no worker is busy.
    pub fn is_drained(&self) -> (b: bool)
        requires
            self.wf(),
        ensures
            b == self@.is_drained(),
    {
        if self.queue.len() > 0 {
            return false;
        }
        let mut i: usize = 0;
        while i < self.workers.len()
            invariant
                i <= self.workers@.len(),
                forall|k: int| 0 <= k < i ==> !(#[trigger] self@.workers[k] is Executing),
            decreases self.workers@.len() - i,
        {
            match self.workers[i].state() {
                WorkerState::Executing { ordinal: _ } => {
                    assert(self@.workers[i as int] is Executing);
                    return false;
                },
                _ => {},
            }
            i = i + 1;
        }
        true
    }

    /// Whether every worker has left its loop.
    pub fn is_terminated(&self) -> (b: bool)
        requires
            self.wf(),
        ensures
            b == self@.is_terminated(),
    {
        let mut i: usize = 0;
        while i < self.workers.len()
            invariant
                i <= self.workers@.len(),
                forall|k: int| 0 <= k < i ==> #[trigger] self@.workers[k] is Terminated,
            decreases self.workers@.len() - i,
        {
            match self.workers[i].state() {
                WorkerState::Terminated => {},
                _ => {
                    assert(!(self@.workers[i as int] is Terminated));
                    return false;
                },
            }
            i = i + 1;
        }
        true
    }

    /// Runs every pending job on the calling thread, oldest first, handing
    /// them to the workers in turn, starting with worker 0. Each job is taken
    /// from the queue, given to `runner`, and recorded with the outcome that
    /// `runner` reports. If the pool has been shut down, every worker then
    /// finds the queue closed and leaves its loop.
    pub fn run_pending<R: JobRunner<J>>(&mut self, runner: &mut R)
        requires
            old(self).wf(),
            old(self)@.is_quiet(),
        ensures
            final(self).wf(),
            final(self)@.is_drained(),
            final(self)@.queue.closed == old(self)@.queue.closed,
            final(self)@.queue.taken == old(self)@.queue.submitted(),
            final(self)@.finished.len() == old(self)@.finished.len() + old(
                self,
            )@.queue.pending.len(),
            final(self)@.finished.subrange(0, old(self)@.finished.len() as int) == old(
                self,
            )@.finished,
            forall|j: int|
                0 <= j < old(self)@.queue.pending.len() ==> {
                    let entry = #[trigger] final(self)@.finished[old(self)@.finished.len() + j];
                    entry.ordinal == old(self)@.queue.taken + j && entry.worker == j % (old(
                        self,
                    )@.size() as int)
                },
            old(self)@.queue.closed ==> final(self)@.is_terminated(),
            !old(self)@.queue.closed ==> final(self)@.workers == old(self)@.workers,
    {
        let size = self.workers.len();
        let count = self.queue.len();
        let ghost before = self@;
        let mut j: usize = 0;
        while j < count
            invariant
                self.wf(),
                size == self@.size(),
                self@.size() == before.size(),
                j <= count,
                count == before.queue.pending.len(),
                self@.is_quiet(),
                self@.queue.closed == before.queue.closed,
                self@.queue.taken == before.queue.taken + j,
                self@.queue.pending.len() == count - j,
                self@.finished.len() == before.finished.len() + j,
                self@.finished.subrange(0, before.finished.len() as int) == before.finished,
                forall|k: int|
                    0 <= k < j ==> {
                        let entry = #[trigger] self@.finished[before.finished.len() + k];
                        entry.ordinal == before.queue.taken + k && entry.worker == k % (size as int)
                    },
                count > 0 ==> self@.workers == before.workers,
                count > 0 ==> forall|i: int|
                    0 <= i < size ==> #[trigger] before.workers[i] is Running,
            decreases count - j,
        {
            let worker = j % size;
            let ghost at_head = self@;
            match self.dispatch(worker) {
                Take::Job { ordinal, job } => {
                    let outcome = runner.run(worker, ordinal, job);
                    self.complete(worker, outcome);
                    proof {
                        assert(self@.finished.subrange(0, before.finished.len() as int)
                            =~= at_head.finished.subrange(0, before.finished.len() as int));
                        assert forall|k: int| 0 <= k < j + 1 implies {
                            let entry = #[trigger] self@.finished[before.finished.len() + k];
                            entry.ordinal == before.queue.taken + k && entry.worker == k % (
                            size as int)
                        } by {
                            if k < j {
                                assert(self@.finished[before.finished.len() + k]
                                    == at_head.finished[before.finished.len() + k]);
                            }
                        }
                    }
                },
                _ => unreached(),
            }
            j = j + 1;
        }
        if self.queue.is_closed() {
            let mut i: usize = 0;
            while i < size
                invariant
                    self.wf(),
                    size == self@.size(),
                    i <= size,
                    self@.queue.pending.len() == 0,
                    self@.queue.closed,
                    self@.queue.taken == before.queue.submitted(),
                    self@.finished.len() == before.finished.len() + count,
                    self@.finished.subrange(0, before.finished.len() as int) == before.finished,
                    forall|k: int|
                        0 <= k < count ==> {
                            let entry = #[trigger] self@.finished[before.finished.len() + k];
                            entry.ordinal == before.queue.taken + k && entry.worker == k % (
                            size as int)
                        },
                    forall|k: int| 0 <= k < i ==> #[trigger] self@.workers[k] is Terminated,
                    forall|k: int| 0 <= k < size ==> !(#[trigger] self@.workers[k] is Executing),
                decreases size - i,
            {
                match self.workers[i].state() {
                    WorkerState::Running => {
                        let ghost at_head = self@;
                        let _ = self.dispatch(i);
                        assert(self@.workers =~= at_head.workers.update(
                            i as int,
                            WorkerState::Terminated,
                        ));
                    },
                    _ => {},
                }
                i = i + 1;
            }
        }
    }

    /// Shuts the pool down and brings it to rest on the calling thread: the
    /// queue is closed, every pending job is run as `run_pending` runs it,
    /// and every worker leaves its loop.
    pub fn join<R: JobRunner<J>>(&mut self, runner: &mut R)
        requires
            old(self).wf(),
            old(self)@.is_quiet(),
        ensures
            final(self).wf(),
            final(self)@.is_drained(),
            final(self)@.is_terminated(),
            final(self)@.queue.closed,
            final(self)@.queue.taken == old(self)@.queue.submitted(),
            final(self)@.finished.len() == old(self)@.finished.len() + old(
                self,
            )@.queue.pending.len(),
            final(self)@.finished.subrange(0, old(self)@.finished.len() as int) == old(
                self,
            )@.finished,
            forall|j: int|
                0 <= j < old(self)@.queue.pending.len() ==> {
                    let entry = #[trigger] final(self)@.finished[old(self)@.finished.len() + j];
                    entry.ordinal == old(self)@.queue.taken + j && entry.worker == j % (old(
                        self,
                    )@.size() as int)
                },
    {
        self.shutdown();
        self.run_pending(runner);
    }
}

} // verus!
