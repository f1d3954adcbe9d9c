use sleepers::supervisor::{PendingWorkers, SupervisorError, WaitEvent, WaitProgress};

#[test]
fn no_workers_means_finished_at_once() {
    let p = PendingWorkers::new();
    assert!(p.is_empty());
    assert_eq!(p.len(), 0);
}

#[test]
fn recorded_workers_are_reaped_in_any_order() {
    let mut p = PendingWorkers::new();
    for pid in [101, 102, 103] {
        p.record(pid);
    }
    assert_eq!(p.len(), 3);
    assert_eq!(p.observe(WaitEvent::Exited(102)), Ok(WaitProgress::KeepWaiting));
    assert_eq!(p.observe(WaitEvent::Exited(103)), Ok(WaitProgress::KeepWaiting));
    assert_eq!(p.position(101), Some(0));
    assert_eq!(p.observe(WaitEvent::Exited(101)), Ok(WaitProgress::Finished));
    assert!(p.is_empty());
}

#[test]
fn no_children_while_pending_is_success() {
    let mut p = PendingWorkers::new();
    p.record(7);
    p.record(8);
    assert_eq!(p.observe(WaitEvent::NoChildren), Ok(WaitProgress::Finished));
}

#[test]
fn unknown_child_is_an_error() {
    let mut p = PendingWorkers::new();
    p.record(7);
    assert_eq!(p.observe(WaitEvent::Exited(9)), Err(SupervisorError::UnknownChild(9)));
    assert_eq!(p.len(), 1);
    assert_eq!(p.position(7), Some(0));
}

#[test]
fn stop_and_resume_change_nothing() {
    let mut p = PendingWorkers::new();
    p.record(7);
    assert_eq!(p.observe(WaitEvent::Stopped), Ok(WaitProgress::KeepWaiting));
    assert_eq!(p.observe(WaitEvent::Continued), Ok(WaitProgress::KeepWaiting));
    assert_eq!(p.len(), 1);
}

#[test]
fn other_wait_report_is_an_error() {
    let mut p = PendingWorkers::new();
    p.record(7);
    assert_eq!(p.observe(WaitEvent::Other), Err(SupervisorError::UnexpectedWait));
    assert_eq!(p.len(), 1);
}

#[test]
fn recording_twice_keeps_one() {
    let mut p = PendingWorkers::new();
    p.record(5);
    p.record(5);
    assert_eq!(p.len(), 1);
    assert_eq!(p.position(6), None);
}
