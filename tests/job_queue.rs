use greathelm::schedule::{JobQueue, Next};

#[test]
fn every_job_is_handed_out_once_in_order() {
    for n in [0usize, 1, 5] {
        let mut q = JobQueue::new();
        for i in 0..n {
            assert_eq!(q.submit(), Some(i));
        }
        q.close();
        let mut seen = Vec::new();
        loop {
            match q.next() {
                Next::Run(id) => {
                    seen.push(id);
                    q.finish();
                }
                Next::Wait => panic!("a closed pool never waits"),
                Next::Exit => break,
            }
        }
        assert_eq!(seen, (0..n).collect::<Vec<_>>());
        assert!(q.is_done());
    }
}

#[test]
fn open_empty_pool_waits() {
    let mut q = JobQueue::new();
    assert_eq!(q.next(), Next::Wait);
    assert!(!q.is_done());
    q.close();
    assert_eq!(q.next(), Next::Exit);
    assert!(q.is_done());
}

#[test]
fn closed_pool_refuses_jobs() {
    let mut q = JobQueue::new();
    q.close();
    assert_eq!(q.submit(), None);
}

#[test]
fn unfinished_job_keeps_pool_busy() {
    let mut q = JobQueue::new();
    q.submit();
    q.submit();
    q.close();
    assert_eq!(q.next(), Next::Run(0));
    assert!(q.has_running());
    assert!(!q.is_done());
    assert_eq!(q.next(), Next::Run(1));
    q.finish();
    q.finish();
    assert!(!q.has_running());
    assert_eq!(q.next(), Next::Exit);
    assert!(q.is_done());
}
