use worker_pool::error::PoolError;
use worker_pool::model::WorkerState;
use worker_pool::queue::{JobQueue, Take};
use worker_pool::worker::Worker;

#[test]
fn queue_hands_out_in_submission_order() {
    let mut queue: JobQueue<&'static str> = JobQueue::new();
    assert!(queue.is_empty());
    assert_eq!(queue.submit("first"), Ok(()));
    assert_eq!(queue.submit("second"), Ok(()));
    assert_eq!(queue.submit("third"), Ok(()));
    assert_eq!(queue.len(), 3);
    assert_eq!(queue.submitted(), 3);
    assert_eq!(queue.taken(), 0);
    assert!(matches!(queue.take(), Take::Job { ordinal: 0, job: "first" }));
    assert!(matches!(queue.take(), Take::Job { ordinal: 1, job: "second" }));
    assert_eq!(queue.len(), 1);
    assert_eq!(queue.taken(), 2);
    assert_eq!(queue.submitted(), 3);
    assert!(matches!(queue.take(), Take::Job { ordinal: 2, job: "third" }));
    assert!(queue.is_empty());
    assert!(matches!(queue.take(), Take::Wait));
    assert_eq!(queue.taken(), 3);
}

#[test]
fn closed_queue_refuses_and_drains() {
    let mut queue: JobQueue<u32> = JobQueue::new();
    assert_eq!(queue.submit(7), Ok(()));
    assert!(!queue.is_closed());
    queue.close();
    assert!(queue.is_closed());
    assert_eq!(queue.submit(8), Err(PoolError::QueueClosed));
    assert_eq!(queue.len(), 1);
    assert!(matches!(queue.take(), Take::Job { ordinal: 0, job: 7 }));
    assert!(matches!(queue.take(), Take::Closed));
    assert!(matches!(queue.take(), Take::Closed));
    queue.close();
    assert!(queue.is_closed());
    assert_eq!(queue.submitted(), 1);
}

#[test]
fn worker_walks_its_states() {
    let mut queue: JobQueue<u32> = JobQueue::new();
    let mut worker = Worker::new(5);
    assert_eq!(worker.id(), 5);
    assert_eq!(worker.state(), WorkerState::Running);
    assert!(matches!(worker.step(&mut queue), Take::Wait));
    assert_eq!(worker.state(), WorkerState::Running);
    assert_eq!(queue.submit(11), Ok(()));
    assert!(matches!(worker.step(&mut queue), Take::Job { ordinal: 0, job: 11 }));
    assert_eq!(worker.state(), WorkerState::Executing { ordinal: 0 });
    assert_eq!(worker.finish(), 0);
    assert_eq!(worker.state(), WorkerState::Running);
    queue.close();
    assert!(matches!(worker.step(&mut queue), Take::Closed));
    assert_eq!(worker.state(), WorkerState::Terminated);
    assert_eq!(worker.id(), 5);
}
