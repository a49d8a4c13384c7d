use containerd_manager::error::{Code, Status};
use containerd_manager::inspect::{container_found, ContainerRecord, ProcessState};
use containerd_manager::maps::StringMap;
use containerd_manager::snapshot_util::SnapshotCall;
use containerd_manager::task::{
    build_create_task_request, cleanup_call, delete_task, is_retryable_delete_error,
    is_task_running, kill_request, kill_task, mounts_target, pause_container, probe_record_gone,
    probe_task_gone, record_deleted, remove_step, retry_delete_task, stop_budget, stop_signal,
    stop_step, stop_task, task_seen, task_stopped, unpause_container, wait_for_exit,
    wait_for_task_stop, DeleteOp, DeletePhase, RemovePhase, RootfsMount, Seen, StartCall,
    StartEvent, StartOp, StartPhase, StopPhase, SIGKILL, SIGTERM,
};
use containerd_manager::time::Duration;
use containerd_manager::{Error, TaskInfo, TaskStatus};

fn status(code: Code) -> Status {
    Status { code, message: "m".to_string() }
}

fn seen(s: TaskStatus, exit_code: Option<i32>) -> Seen {
    Ok(Some(TaskInfo { pid: 4, status: s, exit_code }))
}

#[test]
fn build_create_task_request_sets_container_id() {
    let req =
        build_create_task_request("test-container", vec![], "/logs/stdout", "/logs/stderr");
    assert_eq!(req.container_id, "test-container");
    assert!(!req.terminal);
    assert!(req.stdin.is_empty());
    assert_eq!(req.stdout, "/logs/stdout");
    assert_eq!(req.stderr, "/logs/stderr");
}

#[test]
fn build_create_task_request_includes_rootfs() {
    let mount = RootfsMount {
        typ: "overlay".to_string(),
        source: "/some/path".to_string(),
        target: String::new(),
        options: vec!["lowerdir=/a".to_string(), "upperdir=/b".to_string()],
    };
    let req = build_create_task_request("test-container", vec![mount], "", "");
    assert_eq!(req.rootfs.len(), 1);
    assert_eq!(req.rootfs[0].typ, "overlay");
}

fn start_with(events: Vec<StartEvent>) -> StartOp {
    let mut op = StartOp::begin("c");
    for ev in events {
        op.advance(ev);
    }
    op
}

#[test]
fn a_start_goes_through_its_phases() {
    let mut op = StartOp::begin("c");
    let mut phases = vec![op.phase];
    for ev in [
        StartEvent::Done,
        StartEvent::Done,
        StartEvent::Done,
        StartEvent::Created { pid: 12 },
        StartEvent::Done,
    ] {
        op.advance(ev);
        phases.push(op.phase);
    }
    assert_eq!(
        phases,
        vec![
            StartPhase::Fetch,
            StartPhase::Mounts,
            StartPhase::PrepareLogs,
            StartPhase::Create,
            StartPhase::Start,
            StartPhase::Finished,
        ]
    );
    let id = op.outcome().unwrap();
    assert_eq!((id.container_id(), id.pid()), ("c", 12));
    assert_eq!(id, id.clone());
}

#[test]
fn start_replies_are_mapped() {
    let refused = |before: usize, code| {
        let mut events = vec![];
        for _ in 0..before.min(3) {
            events.push(StartEvent::Done);
        }
        if before == 4 {
            events.push(StartEvent::Created { pid: 12 });
        }
        events.push(StartEvent::Refused(status(code)));
        let op = start_with(events);
        assert_eq!(op.phase, StartPhase::Finished);
        op.outcome().unwrap_err()
    };
    assert!(matches!(
        refused(0, Code::NotFound),
        Error::ContainerNotFound(id) if id == "c"
    ));
    assert!(matches!(
        refused(0, Code::Internal),
        Error::Containerd { op: "get_container", .. }
    ));
    assert!(matches!(
        refused(1, Code::NotFound),
        Error::Containerd { op: "snapshot_mounts", .. }
    ));
    assert!(matches!(
        refused(3, Code::AlreadyExists),
        Error::TaskAlreadyExists(id) if id == "c"
    ));
    assert!(matches!(
        refused(3, Code::Internal),
        Error::Containerd { op: "create_task", .. }
    ));
    assert!(matches!(
        refused(4, Code::NotFound),
        Error::Containerd { op: "start_task", .. }
    ));
    let op = start_with(vec![
        StartEvent::Done,
        StartEvent::Done,
        StartEvent::Failed(Error::NotImplemented),
    ]);
    assert!(matches!(op.outcome(), Err(Error::NotImplemented)));
}

#[test]
fn signals_go_to_all_processes() {
    let req = kill_request("c", SIGKILL);
    assert_eq!((req.container_id.as_str(), req.signal), ("c", 9));
    assert!(req.exec_id.is_empty());
    assert!(req.all);
    assert_eq!(SIGTERM, 15);
}

#[test]
fn stopping_is_idempotent() {
    assert!(stop_task("c", Ok(())).is_ok());
    assert!(stop_task("c", Err(status(Code::FailedPrecondition))).is_ok());
    assert!(matches!(
        stop_task("c", Err(status(Code::NotFound))),
        Err(Error::TaskNotFound(id)) if id == "c"
    ));
    assert!(matches!(
        stop_task("c", Err(status(Code::Internal))),
        Err(Error::Containerd { op: "kill_task", .. })
    ));
    assert!(kill_task(Ok(())).is_ok());
    assert!(kill_task(Err(status(Code::NotFound))).is_ok());
    assert!(kill_task(Err(status(Code::FailedPrecondition))).is_ok());
    assert!(matches!(
        kill_task(Err(status(Code::Unknown))),
        Err(Error::Containerd { op: "kill_task", .. })
    ));
}

#[test]
fn only_a_running_task_runs() {
    let task = |status| Some(TaskInfo { pid: 4, status, exit_code: None });
    assert!(is_task_running(&task(TaskStatus::Running)));
    assert!(!is_task_running(&task(TaskStatus::Paused)));
    assert!(!is_task_running(&None));
}

#[test]
fn a_missing_container_counts_as_stopped() {
    assert!(task_stopped(&Ok(None)));
    assert!(task_stopped(&seen(TaskStatus::Stopped, Some(0))));
    assert!(!task_stopped(&seen(TaskStatus::Running, None)));
    assert!(task_stopped(&Err(Error::ContainerNotFound("c".to_string()))));
    assert!(!task_stopped(&Err(Error::NotImplemented)));
}

#[test]
fn waiting_for_a_stop_times_out() {
    let timeout = Duration::from_secs(3);
    assert!(wait_for_task_stop("c", timeout, timeout, &Ok(None)).unwrap());
    assert!(!wait_for_task_stop("c", timeout, timeout, &seen(TaskStatus::Running, None)).unwrap());
    match wait_for_task_stop("c", Duration::from_millis(3001), timeout, &Ok(None)) {
        Err(e) => assert_eq!(e.message(), "timeout: task c did not stop within 3s"),
        Ok(_) => panic!("waited past the timeout"),
    }
}

#[test]
fn waiting_for_an_exit_gives_the_code() {
    let now = Duration::from_secs(0);
    let timeout = Duration::from_secs(1);
    let look = |s: Seen| wait_for_exit("c", now, timeout, &s);
    assert!(matches!(look(seen(TaskStatus::Stopped, Some(7))), Some(Ok(7))));
    assert!(look(seen(TaskStatus::Running, None)).is_none());
    assert!(matches!(look(Ok(None)), Some(Err(Error::TaskNotFound(id))) if id == "c"));
    assert!(look(Err(Error::NotImplemented)).is_none());
    assert!(matches!(
        look(Err(Error::ContainerNotFound("x".to_string()))),
        Some(Err(Error::ContainerNotFound(id))) if id == "c"
    ));
    assert!(matches!(
        look(seen(TaskStatus::Stopped, None)),
        Some(Err(Error::TaskExited(m))) if m == "task c stopped but no exit code reported"
    ));
    match wait_for_exit("c", Duration::from_secs(2), timeout, &seen(TaskStatus::Stopped, Some(7))) {
        Some(Err(e)) => assert_eq!(e.message(), "timeout: task c did not exit within 1s"),
        _ => panic!("waited past the timeout"),
    }
}

#[test]
fn only_transient_delete_failures_are_retried() {
    let containerd = |code| Error::Containerd { op: "delete_task", source: status(code) };
    for code in [
        Code::FailedPrecondition,
        Code::Unavailable,
        Code::Internal,
        Code::Aborted,
        Code::DeadlineExceeded,
    ] {
        assert!(is_retryable_delete_error(&containerd(code)));
    }
    assert!(!is_retryable_delete_error(&containerd(Code::PermissionDenied)));
    assert!(!is_retryable_delete_error(&Error::NotImplemented));

    let early = Duration::from_millis(999);
    let timeout = Duration::from_secs(1);
    assert!(matches!(retry_delete_task(Ok(()), timeout, timeout), Some(Ok(()))));
    assert!(retry_delete_task(Err(containerd(Code::Internal)), early, timeout).is_none());
    assert!(matches!(
        retry_delete_task(Err(containerd(Code::Internal)), timeout, timeout),
        Some(Err(_))
    ));
    assert!(matches!(
        retry_delete_task(Err(containerd(Code::DataLoss)), early, timeout),
        Some(Err(_))
    ));
}

#[test]
fn deleting_what_is_gone_goes_well() {
    assert!(delete_task(Ok(())).is_ok());
    assert!(delete_task(Err(status(Code::NotFound))).is_ok());
    assert!(matches!(
        delete_task(Err(status(Code::Internal))),
        Err(Error::Containerd { op: "delete_task", .. })
    ));
    assert!(record_deleted(Ok(())).is_ok());
    assert!(record_deleted(Err(status(Code::NotFound))).is_ok());
    assert!(matches!(
        record_deleted(Err(status(Code::Internal))),
        Err(Error::Containerd { op: "delete_container", .. })
    ));
}

#[test]
fn snapshots_are_cleaned_up_without_a_record() {
    let record = ContainerRecord {
        id: "c".to_string(),
        image: "i".to_string(),
        runtime: None,
        spec: None,
        snapshotter: "native".to_string(),
        snapshot_key: "k".to_string(),
        labels: StringMap::new(),
    };
    let removed = |found| match cleanup_call("c", found) {
        SnapshotCall::Remove { snapshotter, key } => (snapshotter, key),
        other => panic!("expected Remove, got {other:?}"),
    };
    let pair = |s: &str| (s.to_string(), "c-snapshot".to_string());
    assert_eq!(removed(Ok(Some(record))), pair("native"));
    assert_eq!(removed(Ok(None)), pair("overlayfs"));
    assert_eq!(removed(Err(status(Code::Internal))), pair("overlayfs"));
}

#[test]
fn a_removal_reaches_every_phase() {
    let mut phase = RemovePhase::Fetch;
    let mut order = vec![];
    while phase != RemovePhase::Done {
        order.push(phase);
        phase = remove_step(phase);
    }
    assert_eq!(
        order,
        vec![
            RemovePhase::Fetch,
            RemovePhase::DeleteRecord,
            RemovePhase::RemoveSnapshot,
            RemovePhase::CleanLogs
        ]
    );
}

#[test]
fn the_grace_is_at_most_half_and_five_seconds() {
    let (grace, rest) = stop_budget(Duration::from_secs(4));
    assert_eq!((grace, rest), (Duration::from_secs(2), Duration::from_secs(2)));
    let (grace, rest) = stop_budget(Duration::from_secs(30));
    assert_eq!((grace, rest), (Duration::from_secs(5), Duration::from_secs(25)));
    let (grace, rest) = stop_budget(Duration::from_nanos(3));
    assert_eq!((grace, rest), (Duration::from_nanos(1), Duration::from_nanos(2)));
}

#[test]
fn a_stop_kills_only_at_last() {
    assert_eq!(stop_step(StopPhase::Terminate, false), StopPhase::AwaitGrace);
    assert_eq!(stop_step(StopPhase::AwaitGrace, false), StopPhase::Check);
    assert_eq!(stop_step(StopPhase::Check, true), StopPhase::Done);
    assert_eq!(stop_step(StopPhase::Check, false), StopPhase::Kill);
    assert_eq!(stop_step(StopPhase::Kill, false), StopPhase::AwaitKill);
    assert_eq!(stop_step(StopPhase::AwaitKill, true), StopPhase::Done);
    assert_eq!(stop_step(StopPhase::AwaitKill, false), StopPhase::Failed);
    assert_eq!(stop_signal(StopPhase::Terminate), Some(SIGTERM));
    assert_eq!(stop_signal(StopPhase::Kill), Some(SIGKILL));
    assert_eq!(stop_signal(StopPhase::Check), None);
}

#[test]
fn a_delete_goes_through_its_phases() {
    let none = Duration::from_nanos(0);
    let mut op = DeleteOp::begin("c", Duration::from_millis(250));
    // A failed stop is passed over.
    op.advance(Duration::from_secs(9), false);
    assert_eq!(op.phase, DeletePhase::DeleteTask);
    op.advance(none, false);
    assert_eq!(op.phase, DeletePhase::DeleteTask);
    op.advance(Duration::from_millis(250), true);
    assert_eq!(op.phase, DeletePhase::AwaitTaskGone);
    op.advance(none, true);
    assert_eq!(op.phase, DeletePhase::Remove);
    op.advance(none, false);
    assert_eq!(op.phase, DeletePhase::AwaitRecordGone);
    op.advance(none, true);
    assert_eq!(op.phase, DeletePhase::Finished);
    assert!(op.outcome().is_ok());
}

#[test]
fn deleting_a_missing_container_succeeds() {
    let missing: Seen = Err(Error::ContainerNotFound("c".to_string()));
    let gone = delete_task(Err(status(Code::NotFound))).is_ok();
    let none = Duration::from_nanos(0);
    let mut op = DeleteOp::begin("c", none);
    op.advance(none, false);
    op.advance(none, gone);
    op.advance(none, probe_task_gone(&missing).0);
    op.advance(none, false);
    op.advance(none, probe_record_gone(&missing).0);
    assert_eq!(op.phase, DeletePhase::Finished);
    assert!(op.outcome().is_ok());
}

#[test]
fn probes_tell_what_is_gone() {
    assert_eq!(probe_task_gone(&seen(TaskStatus::Stopped, Some(0))), (false, true));
    assert_eq!(probe_task_gone(&seen(TaskStatus::Running, None)), (false, false));
    assert_eq!(probe_task_gone(&Ok(None)), (true, false));
    assert_eq!(probe_task_gone(&Err(Error::NotImplemented)), (true, false));
    assert_eq!(probe_record_gone(&Ok(None)), (false, true));
    let gone = Err(Error::ContainerNotFound("c".to_string()));
    assert_eq!(probe_record_gone(&gone), (true, false));
    assert_eq!(probe_record_gone(&Err(Error::NotImplemented)), (false, false));
}

#[test]
fn delete_timeouts_name_the_phase() {
    let text = |steps: usize| {
        let mut op = DeleteOp::begin("c", Duration::from_millis(250));
        for _ in 0..steps {
            op.advance(Duration::from_nanos(0), true);
        }
        op.advance(Duration::from_millis(251), true);
        assert_eq!(op.phase, DeletePhase::Finished);
        op.outcome().unwrap_err().message()
    };
    assert_eq!(text(1), "timeout: delete_container[phase=delete_task] timed out for c");
    assert_eq!(
        text(2),
        "timeout: delete_container[phase=task_record_gone] timed out for c within 250ms"
    );
    assert_eq!(
        text(4),
        "timeout: delete_container[phase=container_record_gone] timed out for c within 250ms"
    );
}

#[test]
fn pausing_needs_a_task() {
    assert!(pause_container("c", Ok(())).is_ok());
    assert!(matches!(
        pause_container("c", Err(status(Code::NotFound))),
        Err(Error::TaskNotFound(id)) if id == "c"
    ));
    assert!(matches!(
        pause_container("c", Err(status(Code::Internal))),
        Err(Error::Containerd { op: "pause_task", .. })
    ));
    assert!(unpause_container("c", Ok(())).is_ok());
    assert!(matches!(
        unpause_container("c", Err(status(Code::Internal))),
        Err(Error::Containerd { op: "unpause_task", .. })
    ));
}

fn stored(id: &str) -> ContainerRecord {
    ContainerRecord {
        id: id.to_string(),
        image: "busybox".to_string(),
        runtime: None,
        spec: None,
        snapshotter: "zfs".to_string(),
        snapshot_key: "layer-7".to_string(),
        labels: StringMap::new(),
    }
}

#[test]
fn a_missing_task_is_told_from_a_failed_look_up() {
    let look = |record, task| task_seen("c", record, task);
    let stopped = ProcessState { pid: 4, status: 3, exit_status: 7 };
    let found = look(Ok(Some(stored("c"))), Ok(Some(stopped))).unwrap().unwrap();
    assert_eq!(found.exit_code, Some(7));
    assert!(look(Ok(Some(stored("c"))), Ok(None)).unwrap().is_none());
    assert!(look(Ok(Some(stored("c"))), Err(status(Code::NotFound))).unwrap().is_none());
    assert!(matches!(
        look(Ok(Some(stored("c"))), Err(status(Code::Unavailable))),
        Err(Error::Containerd { op: "get_task", .. })
    ));
    assert!(matches!(
        look(Ok(None), Ok(None)),
        Err(Error::ContainerNotFound(id)) if id == "c"
    ));
    assert!(matches!(
        look(Err(status(Code::NotFound)), Ok(None)),
        Err(Error::ContainerNotFound(_))
    ));
    assert!(matches!(
        look(Err(status(Code::Internal)), Ok(None)),
        Err(Error::Containerd { op: "get_container", .. })
    ));
    assert!(matches!(
        look(Ok(Some(stored("../c"))), Ok(Some(stopped))),
        Err(Error::InvalidArgument(_))
    ));

    // Only a task that is not there ends the wait for its exit.
    let wait = |seen: Seen| {
        wait_for_exit("c", Duration::from_secs(0), Duration::from_secs(1), &seen)
    };
    let failed = look(Ok(Some(stored("c"))), Err(status(Code::Unavailable)));
    assert!(wait(failed).is_none());
    let missing = look(Ok(Some(stored("c"))), Err(status(Code::NotFound)));
    assert!(matches!(wait(missing), Some(Err(Error::TaskNotFound(id))) if id == "c"));
}

#[test]
fn a_start_calls_for_what_the_record_names() {
    let record = container_found("c", Ok(Some(stored("c")))).unwrap();
    let (snapshotter, key) = mounts_target(&record);
    let mut op = StartOp::begin("c");
    assert!(matches!(
        op.call(&snapshotter, &key),
        Some(StartCall::GetContainer { id }) if id == "c"
    ));
    op.advance(StartEvent::Done);
    assert!(matches!(
        op.call(&snapshotter, &key),
        Some(StartCall::Mounts { snapshotter, key }) if snapshotter == "zfs" && key == "layer-7"
    ));
    op.advance(StartEvent::Done);
    assert!(op.call(&snapshotter, &key).is_none());
    op.advance(StartEvent::Done);
    assert!(op.call(&snapshotter, &key).is_none());
    op.advance(StartEvent::Created { pid: 9 });
    assert!(matches!(
        op.call(&snapshotter, &key),
        Some(StartCall::Start { container_id, exec_id }) if container_id == "c" && exec_id.is_empty()
    ));
    op.advance(StartEvent::Done);
    assert!(op.call(&snapshotter, &key).is_none());
}
