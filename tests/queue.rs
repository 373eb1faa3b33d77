use rusty_web_server_demo::{JobQueue, Received};

fn job_of(r: Received<u32>) -> Option<u32> {
    match r {
        Received::Job(j) => Some(j),
        _ => None,
    }
}

#[test]
fn new_queue_is_open_and_empty() {
    let mut q: JobQueue<u32> = JobQueue::new();
    assert!(q.is_open());
    assert_eq!(q.len(), 0);
    assert!(matches!(q.receive(), Received::Empty));
}

#[test]
fn jobs_leave_in_submission_order() {
    let mut q = JobQueue::new();
    for j in 0..5u32 {
        assert!(q.submit(j).is_ok());
    }
    assert_eq!(q.len(), 5);
    let mut out = Vec::new();
    for _ in 0..5 {
        out.push(job_of(q.receive()).unwrap());
    }
    assert_eq!(out, vec![0, 1, 2, 3, 4]);
    assert!(matches!(q.receive(), Received::Empty));
}

#[test]
fn each_job_is_handed_out_once() {
    let mut q = JobQueue::new();
    assert!(q.submit(7u32).is_ok());
    assert_eq!(job_of(q.receive()), Some(7));
    assert_eq!(job_of(q.receive()), None);
    assert_eq!(q.len(), 0);
}

#[test]
fn submit_after_close_hands_the_job_back() {
    let mut q = JobQueue::new();
    q.close();
    assert!(!q.is_open());
    match q.submit(42u32) {
        Err(e) => assert_eq!(e.job, 42),
        Ok(()) => panic!("a closed queue accepted a job"),
    }
    assert_eq!(q.len(), 0);
    assert!(matches!(q.receive(), Received::Closed));
}

#[test]
fn closing_drains_waiting_jobs_before_reporting_closed() {
    let mut q = JobQueue::new();
    assert!(q.submit(1u32).is_ok());
    assert!(q.submit(2u32).is_ok());
    q.close();
    assert_eq!(job_of(q.receive()), Some(1));
    assert_eq!(job_of(q.receive()), Some(2));
    assert!(matches!(q.receive(), Received::Closed));
    assert!(matches!(q.receive(), Received::Closed));
}

#[test]
fn jobs_wait_while_no_worker_asks() {
    let mut q = JobQueue::new();
    for j in 0..3u32 {
        assert!(q.submit(j).is_ok());
    }
    assert_eq!(job_of(q.receive()), Some(0));
    assert!(q.submit(3).is_ok());
    assert_eq!(q.len(), 3);
    let rest: Vec<u32> = (0..3).map(|_| job_of(q.receive()).unwrap()).collect();
    assert_eq!(rest, vec![1, 2, 3]);
}
