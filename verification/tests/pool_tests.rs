use raincloud::pool::{Pool, WorkerStatus};

#[test]
fn pool_size_is_clamped_to_one() {
    let p = Pool::new(0);
    assert_eq!(p.workers.len(), 1);
    let p = Pool::new(4);
    assert_eq!(p.workers.len(), 4);
}

#[test]
fn fresh_workers_are_free_and_numbered() {
    let p = Pool::new(3);
    for (i, w) in p.workers.iter().enumerate() {
        assert_eq!(w.id, i);
        assert_eq!(w.status, WorkerStatus::Free);
        assert!(!w.shutdown_requested);
        assert!(!w.exited);
    }
}

#[test]
fn dispatch_picks_the_lowest_free_worker() {
    let mut p = Pool::new(3);
    assert_eq!(p.submit(), Some(0));
    assert_eq!(p.submit(), Some(1));
    p.mark_free(0);
    assert_eq!(p.submit(), Some(0));
}

#[test]
fn one_free_worker_takes_one_of_two_jobs() {
    // Scenario: only one worker is free; the first job goes to it, and
    // the second is deferred to a later scheduling pass.
    let mut p = Pool::new(3);
    assert_eq!(p.submit(), Some(0));
    assert_eq!(p.submit(), Some(1));
    assert_eq!(p.submit(), Some(2));
    p.mark_free(1);
    // Two jobs arrive; worker 1 is the only free one.
    assert_eq!(p.submit(), Some(1));
    assert_eq!(p.submit(), None);
    // A later pass, after a worker came free, picks the job up.
    p.mark_free(2);
    assert_eq!(p.submit(), Some(2));
}

#[test]
fn shutdown_reaches_every_worker_before_join() {
    // Scenario: shutdown is sent to all workers; the join is complete
    // only once every worker has exited its loop.
    let mut p = Pool::new(3);
    p.request_shutdown();
    for w in p.workers.iter() {
        assert!(w.shutdown_requested);
    }
    assert!(!p.join_complete());
    p.note_exited(0);
    p.note_exited(2);
    assert!(!p.join_complete());
    p.note_exited(1);
    assert!(p.join_complete());
}

#[test]
fn no_dispatch_after_shutdown_begins() {
    let mut p = Pool::new(2);
    p.request_shutdown();
    assert_eq!(p.submit(), None);
}

#[test]
fn freeing_a_worker_keeps_its_shutdown_state() {
    let mut p = Pool::new(1);
    assert_eq!(p.submit(), Some(0));
    p.request_shutdown();
    p.mark_free(0);
    assert!(p.workers[0].shutdown_requested);
    assert_eq!(p.workers[0].status, WorkerStatus::Free);
    // Still not dispatchable: shutdown takes precedence.
    assert_eq!(p.submit(), None);
}
