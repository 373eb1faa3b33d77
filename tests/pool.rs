use std::cell::{Cell, RefCell};
use std::rc::Rc;

use rusty_web_server_demo::{
    JobQueue, Received, SubmitError, ThreadPool, WorkerAction, WorkerState,
};

type Job = Box<dyn FnOnce()>;

#[test]
fn build_makes_capacity_workers_with_ordinals_in_order() {
    for capacity in 1..=8usize {
        let spawned = RefCell::new(Vec::new());
        let pool = ThreadPool::build(capacity, "sender", |id: usize| {
            spawned.borrow_mut().push(id);
            id * 10
        })
        .unwrap();
        assert_eq!(pool.capacity(), capacity);
        assert_eq!(*spawned.borrow(), (0..capacity).collect::<Vec<_>>());
        assert_eq!(pool.sender(), Some(&"sender"));
    }
}

#[test]
fn build_with_zero_capacity_fails_without_spawning() {
    let calls = Cell::new(0usize);
    let r = ThreadPool::build(0, (), |_id: usize| {
        calls.set(calls.get() + 1);
    });
    match r {
        Err(e) => assert_eq!(e.message(), "ThreadPool's capacity should not be zero"),
        Ok(_) => panic!("a pool without workers was built"),
    }
    assert_eq!(calls.get(), 0);
}

#[test]
fn new_makes_the_pool_when_capacity_is_positive() {
    let pool = ThreadPool::new(3, 0u8, |id: usize| id);
    assert_eq!(pool.capacity(), 3);
}

#[test]
fn shutdown_hands_back_sender_and_every_thread_in_order() {
    let mut pool = ThreadPool::new(4, "sender", |id: usize| id + 100);
    let (sender, threads) = pool.shutdown();
    assert_eq!(sender, Some("sender"));
    assert_eq!(threads, vec![(0, 100), (1, 101), (2, 102), (3, 103)]);
    assert_eq!(pool.sender(), None);
    assert_eq!(pool.capacity(), 4);
    let (again, none) = pool.shutdown();
    assert_eq!(again, None);
    assert!(none.is_empty());
}

/// Runs the workers of a pool over a queue, turn by turn, until each
/// has stopped.
fn run_workers(capacity: usize, queue: &mut JobQueue<Job>) {
    let mut states = vec![WorkerState::Running; capacity];
    while states.iter().any(|s| *s == WorkerState::Running) {
        for state in states.iter_mut() {
            if *state == WorkerState::Running {
                let (next, action) = state.step(queue.receive());
                *state = next;
                if let WorkerAction::Run(job) = action {
                    job();
                }
            }
        }
    }
}

#[test]
fn eight_jobs_on_four_workers_each_run_once() {
    let pool = ThreadPool::new(4, (), |id: usize| id);
    let seen = Rc::new(RefCell::new(Vec::new()));
    let mut queue: JobQueue<Job> = JobQueue::new();
    for n in 0..8u32 {
        let seen = Rc::clone(&seen);
        assert!(queue.submit(Box::new(move || seen.borrow_mut().push(n))).is_ok());
    }
    queue.close();
    run_workers(pool.capacity(), &mut queue);
    let mut got = seen.borrow().clone();
    got.sort();
    assert_eq!(got, (0..8).collect::<Vec<_>>());
}

#[test]
fn one_worker_runs_jobs_in_submission_order() {
    let pool = ThreadPool::new(1, (), |id: usize| id);
    let records = Rc::new(RefCell::new(Vec::new()));
    let mut queue: JobQueue<Job> = JobQueue::new();
    let a = Rc::clone(&records);
    assert!(queue
        .submit(Box::new(move || {
            let slow: u64 = (0..5_000_000u64).fold(0, |acc, x| acc.wrapping_add(x));
            assert!(slow > 0);
            a.borrow_mut().push("A");
        }))
        .is_ok());
    let b = Rc::clone(&records);
    assert!(queue.submit(Box::new(move || b.borrow_mut().push("B"))).is_ok());
    queue.close();
    run_workers(pool.capacity(), &mut queue);
    assert_eq!(*records.borrow(), vec!["A", "B"]);
}

#[test]
fn submitting_after_shutdown_is_refused() {
    let mut pool = ThreadPool::new(2, (), |id: usize| id);
    let mut queue: JobQueue<u32> = JobQueue::new();
    let (sender, _threads) = pool.shutdown();
    assert!(sender.is_some());
    queue.close();
    assert!(pool.sender().is_none());
    assert!(queue.submit(9).is_err());
}

#[test]
fn execute_sends_through_the_handle_until_shutdown() {
    let mut pool = ThreadPool::new(2, RefCell::new(Vec::new()), |id: usize| id);
    let send = |s: &RefCell<Vec<u32>>, job: u32| -> Result<(), SubmitError<u32>> {
        s.borrow_mut().push(job);
        Ok(())
    };
    assert!(pool.execute(1u32, send).is_ok());
    assert!(pool.execute(2u32, send).is_ok());
    let (sender, _threads) = pool.shutdown();
    assert_eq!(sender.unwrap().into_inner(), vec![1, 2]);
    let calls = Cell::new(0usize);
    let r = pool.execute(3u32, |_s: &RefCell<Vec<u32>>, _job: u32| {
        calls.set(calls.get() + 1);
        Ok(())
    });
    match r {
        Err(e) => assert_eq!(e.job, 3),
        Ok(()) => panic!("a job was accepted after shutdown"),
    }
    assert_eq!(calls.get(), 0);
}

#[test]
fn worker_runs_waits_and_stops_only_on_closed() {
    let (s, a) = WorkerState::Running.step(Received::Job(5u32));
    assert_eq!(s, WorkerState::Running);
    assert!(matches!(a, WorkerAction::Run(5)));
    let (s, a) = WorkerState::Running.step(Received::<u32>::Empty);
    assert_eq!(s, WorkerState::Running);
    assert!(matches!(a, WorkerAction::Wait));
    let (s, a) = WorkerState::Running.step(Received::<u32>::Closed);
    assert_eq!(s, WorkerState::Stopped);
    assert!(matches!(a, WorkerAction::Exit));
}
