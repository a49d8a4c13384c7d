use containerd_manager::handles::ManagedHandles;
use containerd_manager::task::{probe_record_gone, probe_task_gone, DeleteOp, DeletePhase};
use containerd_manager::time::Duration;
use containerd_manager::{Client, Error};

#[test]
fn forwards_are_told_apart_by_container() {
    let mut h = ManagedHandles::new();
    h.keep_forward("a", 1);
    h.keep_forward("b", 2);
    h.keep_forward("a", 3);
    assert!(h.stop_managed_forwards("c").is_empty());
    assert_eq!(h.stop_managed_forwards("a"), vec![1, 3]);
    assert!(h.stop_managed_forwards("a").is_empty());
    assert_eq!(h.stop_managed_forwards("b"), vec![2]);
}

#[test]
fn a_restart_replaces_the_tailer() {
    let c = Client::new();
    let elsewhere = c.with_namespace("elsewhere");
    let mut h = ManagedHandles::new();
    assert_eq!(h.keep_tailer(&c, "a", 1), None);
    assert_eq!(h.keep_tailer(&elsewhere, "a", 2), None);
    assert_eq!(h.keep_tailer(&c, "a", 3), Some(1));
    assert_eq!(h.stop_managed_tailer(&c, "a"), Some(3));
    assert_eq!(h.stop_managed_tailer(&c, "a"), None);
    assert_eq!(h.stop_managed_tailer(&elsewhere, "a"), Some(2));
}

fn delete_missing(id: &str) -> DeleteOp {
    let now = Duration::from_secs(0);
    let missing = || Err(Error::ContainerNotFound(id.to_string()));
    let mut op = DeleteOp::begin(id, Duration::from_secs(5));
    op.advance(now, false);
    op.advance(now, true);
    op.advance(now, probe_task_gone(&missing()).0);
    op.advance(now, false);
    op.advance(now, probe_record_gone(&missing()).0);
    assert_eq!(op.phase, DeletePhase::Finished);
    op
}

#[test]
fn deleting_what_is_missing_lets_go_of_it() {
    let c = Client::new();
    let mut h = ManagedHandles::new();
    h.keep_forward("gone", 1);
    h.keep_forward("other", 2);
    h.keep_tailer(&c, "gone", 3);
    h.keep_tailer(&c, "other", 4);
    let done = c.delete_container(&mut h, delete_missing("gone"));
    assert!(done.result.is_ok());
    assert_eq!(done.forwards, vec![1]);
    assert_eq!(done.tailer, Some(3));
    let again = c.delete_container(&mut h, delete_missing("gone"));
    assert!(again.result.is_ok());
    assert!(again.forwards.is_empty());
    assert_eq!(again.tailer, None);
    assert_eq!(h.stop_managed_forwards("other"), vec![2]);
    assert_eq!(h.stop_managed_tailer(&c, "other"), Some(4));
}

#[test]
fn a_failed_delete_lets_go_too() {
    let c = Client::new();
    let mut h = ManagedHandles::new();
    h.keep_tailer(&c, "stuck", 1);
    let mut op = DeleteOp::begin("stuck", Duration::from_secs(1));
    op.advance(Duration::from_secs(0), true);
    op.advance(Duration::from_secs(2), false);
    let done = c.delete_container(&mut h, op);
    match done.result {
        Err(Error::Timeout(m)) => {
            assert_eq!(m, "delete_container[phase=delete_task] timed out for stuck")
        }
        _ => panic!("a delete past its time succeeded"),
    }
    assert_eq!(done.tailer, Some(1));
}
