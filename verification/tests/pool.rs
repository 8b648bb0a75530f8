use std::cell::RefCell;
use std::rc::Rc;
use std::sync::atomic::{AtomicUsize, Ordering};
use std::sync::Arc;

use worker_pool::error::{FaultReport, JobOutcome, PoolError};
use worker_pool::model::WorkerState;
use worker_pool::pool::{JobRunner, ThreadPool};
use worker_pool::queue::Take;

type Job = Box<dyn FnOnce() -> Result<(), String>>;

/// Runs each job where it stands and notes who ran what.
struct Inline {
    ran: Vec<(usize, u64)>,
}

impl JobRunner<Job> for Inline {
    fn run(&mut self, worker: usize, ordinal: u64, job: Job) -> JobOutcome {
        self.ran.push((worker, ordinal));
        match job() {
            Ok(()) => JobOutcome::Completed,
            Err(_) => JobOutcome::Faulted,
        }
    }
}

fn new_pool(size: usize) -> ThreadPool<Job> {
    match ThreadPool::new(size) {
        Ok(pool) => pool,
        Err(e) => panic!("no pool of size {}: {:?}", size, e),
    }
}

#[test]
fn ten_jobs_on_four_workers_all_run_once() {
    let mut pool = new_pool(4);
    let counter = Arc::new(AtomicUsize::new(0));
    let mut k: usize = 0;
    while k < 10 {
        let counter = Arc::clone(&counter);
        let job: Job = Box::new(move || {
            counter.fetch_add(1, Ordering::SeqCst);
            Ok(())
        });
        assert_eq!(pool.execute(job), Ok(()));
        k += 1;
    }
    assert_eq!(pool.pending(), 10);
    let mut runner = Inline { ran: Vec::new() };
    pool.join(&mut runner);
    assert_eq!(counter.load(Ordering::SeqCst), 10);
    assert_eq!(pool.completed(), 10);
    assert_eq!(pool.submitted(), 10);
    assert_eq!(pool.pending(), 0);
    assert!(pool.faults().is_empty());
    assert!(pool.is_drained());
    assert!(pool.is_terminated());
    let expected: Vec<(usize, u64)> = vec![
        (0, 0),
        (1, 1),
        (2, 2),
        (3, 3),
        (0, 4),
        (1, 5),
        (2, 6),
        (3, 7),
        (0, 8),
        (1, 9),
    ];
    assert_eq!(runner.ran, expected);
}

#[test]
fn single_worker_keeps_submission_order() {
    let mut pool = new_pool(1);
    let log: Rc<RefCell<Vec<&'static str>>> = Rc::new(RefCell::new(Vec::new()));
    for name in ["A", "B", "C"] {
        let log = Rc::clone(&log);
        let job: Job = Box::new(move || {
            log.borrow_mut().push(name);
            Ok(())
        });
        assert_eq!(pool.execute(job), Ok(()));
    }
    let mut runner = Inline { ran: Vec::new() };
    pool.run_pending(&mut runner);
    assert_eq!(*log.borrow(), vec!["A", "B", "C"]);
    assert_eq!(runner.ran, vec![(0, 0), (0, 1), (0, 2)]);
    assert!(pool.is_drained());
    assert!(!pool.is_shut_down());
    assert!(!pool.is_terminated());
    assert_eq!(pool.worker_state(0), WorkerState::Running);
}

#[test]
fn two_workers_hold_two_jobs_at_once() {
    let mut pool = new_pool(2);
    let started = Arc::new(AtomicUsize::new(0));
    let met = Arc::new(AtomicUsize::new(0));
    let mut k: usize = 0;
    while k < 2 {
        let started = Arc::clone(&started);
        let met = Arc::clone(&met);
        let job: Job = Box::new(move || {
            if started.load(Ordering::SeqCst) == 2 {
                met.fetch_add(1, Ordering::SeqCst);
                Ok(())
            } else {
                Err(String::from("the other job had not started"))
            }
        });
        assert_eq!(pool.execute(job), Ok(()));
        k += 1;
    }
    let first = match pool.dispatch(0) {
        Take::Job { ordinal, job } => {
            assert_eq!(ordinal, 0);
            started.fetch_add(1, Ordering::SeqCst);
            job
        },
        _ => panic!("worker 0 got no job"),
    };
    let second = match pool.dispatch(1) {
        Take::Job { ordinal, job } => {
            assert_eq!(ordinal, 1);
            started.fetch_add(1, Ordering::SeqCst);
            job
        },
        _ => panic!("worker 1 got no job"),
    };
    assert_eq!(pool.worker_state(0), WorkerState::Executing { ordinal: 0 });
    assert_eq!(pool.worker_state(1), WorkerState::Executing { ordinal: 1 });
    assert_eq!(pool.pending(), 0);
    assert!(!pool.is_drained());
    // the second job ends first: nothing orders the two once they are out
    assert_eq!(second(), Ok(()));
    pool.complete(1, JobOutcome::Completed);
    assert_eq!(first(), Ok(()));
    pool.complete(0, JobOutcome::Completed);
    assert_eq!(met.load(Ordering::SeqCst), 2);
    assert_eq!(pool.completed(), 2);
    assert!(pool.is_drained());
    assert_eq!(pool.worker_state(0), WorkerState::Running);
    assert_eq!(pool.worker_state(1), WorkerState::Running);
}

#[test]
fn pool_without_workers_is_refused() {
    let pool: Result<ThreadPool<Job>, PoolError> = ThreadPool::new(0);
    assert!(matches!(pool, Err(PoolError::InvalidSize)));
}

#[test]
fn pool_of_any_positive_size_is_made() {
    for size in [1usize, 2, 3, 8, 64] {
        let pool = new_pool(size);
        assert_eq!(pool.size(), size);
        assert_eq!(pool.pending(), 0);
        assert_eq!(pool.submitted(), 0);
        assert_eq!(pool.completed(), 0);
        assert!(!pool.is_shut_down());
        assert!(pool.is_drained());
        assert!(!pool.is_terminated());
        let mut w: usize = 0;
        while w < size {
            assert_eq!(pool.worker_state(w), WorkerState::Running);
            w += 1;
        }
    }
}

#[test]
fn fault_is_reported_and_the_next_job_runs() {
    let mut pool = new_pool(2);
    let done = Arc::new(AtomicUsize::new(0));
    let faulty: Job = Box::new(|| Err(String::from("boom")));
    assert_eq!(pool.execute(faulty), Ok(()));
    let seen = Arc::clone(&done);
    let normal: Job = Box::new(move || {
        seen.fetch_add(1, Ordering::SeqCst);
        Ok(())
    });
    assert_eq!(pool.execute(normal), Ok(()));
    let mut runner = Inline { ran: Vec::new() };
    pool.join(&mut runner);
    assert_eq!(done.load(Ordering::SeqCst), 1);
    assert_eq!(pool.completed(), 1);
    assert_eq!(pool.faults().clone(), vec![FaultReport { worker: 0, ordinal: 0 }]);
    assert_eq!(runner.ran, vec![(0, 0), (1, 1)]);
    assert!(pool.is_terminated());
}

#[test]
fn faulting_worker_takes_the_next_job_itself() {
    let mut pool = new_pool(1);
    let done = Arc::new(AtomicUsize::new(0));
    let faulty: Job = Box::new(|| Err(String::from("boom")));
    assert_eq!(pool.execute(faulty), Ok(()));
    match pool.dispatch(0) {
        Take::Job { ordinal, job } => {
            assert_eq!(ordinal, 0);
            assert!(job().is_err());
        },
        _ => panic!("no job"),
    }
    pool.complete(0, JobOutcome::Faulted);
    assert_eq!(pool.worker_state(0), WorkerState::Running);
    assert_eq!(pool.faults().len(), 1);
    assert_eq!(pool.faults()[0], FaultReport { worker: 0, ordinal: 0 });
    let seen = Arc::clone(&done);
    let normal: Job = Box::new(move || {
        seen.fetch_add(1, Ordering::SeqCst);
        Ok(())
    });
    assert_eq!(pool.execute(normal), Ok(()));
    match pool.dispatch(0) {
        Take::Job { ordinal, job } => {
            assert_eq!(ordinal, 1);
            assert!(job().is_ok());
        },
        _ => panic!("no job"),
    }
    pool.complete(0, JobOutcome::Completed);
    assert_eq!(done.load(Ordering::SeqCst), 1);
    assert_eq!(pool.completed(), 1);
    assert_eq!(pool.faults().len(), 1);
}

#[test]
fn submit_after_shutdown_is_refused() {
    let mut pool = new_pool(2);
    let ran = Arc::new(AtomicUsize::new(0));
    let seen = Arc::clone(&ran);
    let before: Job = Box::new(move || {
        seen.fetch_add(1, Ordering::SeqCst);
        Ok(())
    });
    assert_eq!(pool.execute(before), Ok(()));
    pool.shutdown();
    assert!(pool.is_shut_down());
    let seen = Arc::clone(&ran);
    let after: Job = Box::new(move || {
        seen.fetch_add(10, Ordering::SeqCst);
        Ok(())
    });
    assert_eq!(pool.execute(after), Err(PoolError::QueueClosed));
    assert_eq!(pool.pending(), 1);
    assert_eq!(pool.submitted(), 1);
    // what was pending at the shutdown is still handed out
    match pool.dispatch(1) {
        Take::Job { ordinal, job } => {
            assert_eq!(ordinal, 0);
            assert!(job().is_ok());
        },
        _ => panic!("the pending job was dropped"),
    }
    pool.complete(1, JobOutcome::Completed);
    assert!(matches!(pool.dispatch(0), Take::Closed));
    assert_eq!(pool.worker_state(0), WorkerState::Terminated);
    assert!(!pool.is_terminated());
    assert!(matches!(pool.dispatch(1), Take::Closed));
    assert!(pool.is_terminated());
    assert_eq!(ran.load(Ordering::SeqCst), 1);
}

#[test]
fn shutdown_twice_is_shutdown_once() {
    let mut pool = new_pool(3);
    pool.shutdown();
    pool.shutdown();
    assert!(pool.is_shut_down());
    assert_eq!(pool.size(), 3);
    assert_eq!(pool.pending(), 0);
    let mut runner = Inline { ran: Vec::new() };
    pool.join(&mut runner);
    pool.join(&mut runner);
    assert!(pool.is_terminated());
    assert!(runner.ran.is_empty());
    let job: Job = Box::new(|| Ok(()));
    assert_eq!(pool.execute(job), Err(PoolError::QueueClosed));
}

#[test]
fn idle_worker_is_told_to_wait() {
    let mut pool = new_pool(2);
    assert!(matches!(pool.dispatch(0), Take::Wait));
    assert_eq!(pool.worker_state(0), WorkerState::Running);
    assert!(matches!(pool.dispatch(1), Take::Wait));
    assert_eq!(pool.worker_state(1), WorkerState::Running);
}

#[test]
fn no_job_without_submission() {
    let mut pool = new_pool(3);
    let mut runner = Inline { ran: Vec::new() };
    pool.join(&mut runner);
    assert!(runner.ran.is_empty());
    assert_eq!(pool.completed(), 0);
    assert_eq!(pool.submitted(), 0);
    assert!(pool.is_terminated());
}
