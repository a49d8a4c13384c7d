use containerd_manager::container::NetworkMode;
use containerd_manager::error::{Code, Status};
use containerd_manager::maps::StringMap;
use containerd_manager::snapshot::{
    check_reset_image, check_reset_target, check_snapshot_name, delete_snapshot,
    delete_snapshot_call, list_snapshots, managed_filter, reset_backoff, restore_create_opts, snapshot_info, snapshot_labels,
    stat_managed_snapshot, timestamp_to_systemtime, ListStage, ResetOp, ResetPhase, RestoreOp,
    RestorePhase, SnapshotOp, SnapshotPhase, SnapshotRecord, Timestamp, DESCRIPTION_LABEL, IMAGE_LABEL, MANAGED_LABEL,
};
use containerd_manager::snapshot_util::{SnapshotCall, StepEvent};
use containerd_manager::time::{Duration, SystemTime};
use containerd_manager::{
    Error, ResetToSnapshotOpts, RestoreContainerOpts, SnapshotContainerOpts,
};

fn status(code: Code) -> Status {
    Status { code, message: "m".to_string() }
}

// Snapshot label keys are persisted on every managed snapshot. Renames would
// orphan the listing filters + restore.
#[test]
fn snapshot_label_keys_pinned() {
    assert_eq!(IMAGE_LABEL, "containerd-manager.snapshot.image");
    assert_eq!(MANAGED_LABEL, "containerd-manager.snapshot.managed");
    assert_eq!(DESCRIPTION_LABEL, "containerd-manager.snapshot.description");
}

#[test]
fn timestamp_zero_is_epoch() {
    let t = Timestamp { seconds: 0, nanos: 0 };
    assert_eq!(timestamp_to_systemtime(t), Some(SystemTime { nanos: 0 }));
}

#[test]
fn timestamp_negative_seconds_returns_none() {
    let t = Timestamp { seconds: -1, nanos: 0 };
    assert_eq!(timestamp_to_systemtime(t), None);
}

#[test]
fn timestamp_negative_nanos_returns_none() {
    let t = Timestamp { seconds: 1, nanos: -5 };
    assert_eq!(timestamp_to_systemtime(t), None);
}

#[test]
fn timestamps_count_nanoseconds() {
    let t = Timestamp { seconds: 2, nanos: 7 };
    assert_eq!(timestamp_to_systemtime(t), Some(SystemTime { nanos: 2_000_000_007 }));
}

#[test]
fn label_constants_are_under_our_namespace() {
    for k in [IMAGE_LABEL, MANAGED_LABEL, DESCRIPTION_LABEL] {
        assert!(
            k.starts_with("containerd-manager."),
            "label {k} must be under our namespace"
        );
    }
}

#[test]
fn snapshots_need_a_name() {
    assert!(check_snapshot_name("s").is_ok());
    let snap = SnapshotContainerOpts::default();
    let reset = ResetToSnapshotOpts::default();
    let complaints = [
        check_snapshot_name("").unwrap_err(),
        SnapshotOp::begin("", &snap).unwrap_err(),
        RestoreOp::begin("", "dst").unwrap_err(),
        ResetOp::begin("", &reset).unwrap_err(),
    ];
    for e in complaints {
        assert_eq!(e.message(), "invalid argument: snapshot name must not be empty");
    }
}

#[test]
fn labels_mark_a_snapshot_as_ours() {
    let opts = SnapshotContainerOpts::builder().description("primed").build();
    let labels = snapshot_labels("busybox", &opts);
    assert_eq!(labels.len(), 3);
    assert_eq!(labels.get(MANAGED_LABEL).unwrap(), "1");
    assert_eq!(labels.get(DESCRIPTION_LABEL).unwrap(), "primed");
    assert_eq!(stat_managed_snapshot("s", Ok(Some(labels))).unwrap(), "busybox");
    let labels = snapshot_labels("busybox", &SnapshotContainerOpts::default());
    assert_eq!(labels.len(), 2);
}

#[test]
fn foreign_snapshots_are_refused() {
    let labels = StringMap::from_pairs(&[(MANAGED_LABEL, "0"), (IMAGE_LABEL, "busybox")]);
    match stat_managed_snapshot("s", Ok(Some(labels))) {
        Err(e) => assert_eq!(
            e.message(),
            "snapshot 's' was not created by containerd-manager (missing managed label)"
        ),
        Ok(_) => panic!("a foreign snapshot went through"),
    }
    let labels = StringMap::from_pairs(&[(MANAGED_LABEL, "1")]);
    assert!(matches!(
        stat_managed_snapshot("s", Ok(Some(labels))),
        Err(Error::InvalidArgument(m))
            if m == "managed snapshot 's' missing required containerd-manager.snapshot.image label"
    ));
    assert!(matches!(
        stat_managed_snapshot("s", Ok(None)),
        Err(Error::SnapshotNotFound(n)) if n == "s"
    ));
    assert!(matches!(
        stat_managed_snapshot("s", Err(status(Code::NotFound))),
        Err(Error::SnapshotNotFound(n)) if n == "s"
    ));
    assert!(matches!(
        stat_managed_snapshot("s", Err(status(Code::Internal))),
        Err(Error::Containerd { op: "snapshot_stat", .. })
    ));
}

fn running_snapshot(restart: bool) -> SnapshotOp {
    let opts = SnapshotContainerOpts::builder().restart_src(restart).build();
    let mut op = SnapshotOp::begin("s", &opts).unwrap();
    assert_eq!(op.phase, SnapshotPhase::Inspect);
    op.advance(StepEvent::Seen { running: true });
    assert_eq!(op.phase, SnapshotPhase::Stop);
    op.advance(StepEvent::Done);
    assert_eq!(op.phase, SnapshotPhase::DeleteTask);
    op.advance(StepEvent::Done);
    assert_eq!(op.phase, SnapshotPhase::Fetch);
    op.advance(StepEvent::Done);
    assert_eq!(op.phase, SnapshotPhase::Commit);
    op
}

#[test]
fn a_snapshot_goes_through_its_phases() {
    let mut op = running_snapshot(true);
    op.advance(StepEvent::Done);
    assert_eq!(op.phase, SnapshotPhase::Reprepare);
    op.advance(StepEvent::Done);
    assert_eq!(op.phase, SnapshotPhase::Restart);
    // A failed restart is passed over.
    op.advance(StepEvent::Failed(Error::NotImplemented));
    assert_eq!(op.phase, SnapshotPhase::Finished);
    assert!(op.outcome().is_ok());

    let mut op = running_snapshot(false);
    op.advance(StepEvent::Done);
    op.advance(StepEvent::Done);
    assert_eq!(op.phase, SnapshotPhase::Finished);
}

#[test]
fn a_stopped_source_is_snapshotted_right_away() {
    let opts = SnapshotContainerOpts::builder().restart_src(true).build();
    let mut op = SnapshotOp::begin("s", &opts).unwrap();
    op.advance(StepEvent::Seen { running: false });
    assert_eq!(op.phase, SnapshotPhase::Fetch);
    op.advance(StepEvent::Done);
    op.advance(StepEvent::Done);
    op.advance(StepEvent::Done);
    assert_eq!(op.phase, SnapshotPhase::Finished);
}

#[test]
fn a_failed_commit_restarts_the_source() {
    let mut op = running_snapshot(true);
    op.advance(StepEvent::Refused(status(Code::AlreadyExists)));
    assert_eq!(op.phase, SnapshotPhase::Restart);
    op.advance(StepEvent::Done);
    assert!(matches!(op.outcome(), Err(Error::SnapshotAlreadyExists(n)) if n == "s"));

    let mut op = running_snapshot(true);
    op.advance(StepEvent::Refused(status(Code::Internal)));
    assert_eq!(op.phase, SnapshotPhase::Restart);
    assert!(matches!(
        op.outcome(),
        Err(Error::Containerd { op: "snapshot_commit", .. })
    ));
}

#[test]
fn a_failed_reprepare_rolls_the_snapshot_back() {
    let mut op = running_snapshot(true);
    op.advance(StepEvent::Done);
    op.advance(StepEvent::Refused(status(Code::Internal)));
    assert_eq!(op.phase, SnapshotPhase::RollBack);
    op.advance(StepEvent::Done);
    assert_eq!(op.phase, SnapshotPhase::Finished);
    assert!(matches!(
        op.outcome(),
        Err(Error::Containerd { op: "snapshot_reprepare_src", .. })
    ));
}

#[test]
fn restored_containers_take_their_options() {
    let opts = RestoreContainerOpts::builder()
        .env("A", "1")
        .env("A", "2")
        .label("l", "v")
        .network(NetworkMode::Host)
        .port_bindings(vec![80, 443])
        .build();
    let create = restore_create_opts("dst-snapshot", &opts);
    assert_eq!(create.env.len(), 1);
    assert_eq!(create.env.get("A").unwrap(), "2");
    assert_eq!(create.labels.get("l").unwrap(), "v");
    assert_eq!(create.network.mode, NetworkMode::Host);
    assert_eq!(create.port_bindings, vec![(0, 80), (0, 443)]);
    assert_eq!(create.from_existing_snapshot.as_deref(), Some("dst-snapshot"));
    let create = restore_create_opts("k", &RestoreContainerOpts::default());
    assert_eq!(create.network.mode, NetworkMode::Bridge);
    assert!(create.cmd.is_none());
}

#[test]
fn a_restore_goes_through_its_phases() {
    let mut op = RestoreOp::begin("s", "dst").unwrap();
    op.advance(StepEvent::Done);
    assert_eq!(op.phase, RestorePhase::PrepareDst);
    op.advance(StepEvent::Done);
    assert_eq!(op.phase, RestorePhase::CreateDst);
    op.advance(StepEvent::Done);
    assert_eq!(op.phase, RestorePhase::Finished);
    assert!(op.outcome().is_ok());
}

#[test]
fn a_failed_restore_cleans_up() {
    let mut op = RestoreOp::begin("s", "dst").unwrap();
    op.advance(StepEvent::Failed(Error::SnapshotNotFound("s".to_string())));
    assert_eq!(op.phase, RestorePhase::Finished);
    assert!(matches!(op.outcome(), Err(Error::SnapshotNotFound(_))));

    let mut op = RestoreOp::begin("s", "dst").unwrap();
    op.advance(StepEvent::Done);
    op.advance(StepEvent::Refused(status(Code::AlreadyExists)));
    assert_eq!(op.phase, RestorePhase::Finished);
    assert!(matches!(op.outcome(), Err(Error::ContainerAlreadyExists(n)) if n == "dst"));

    let mut op = RestoreOp::begin("s", "dst").unwrap();
    op.advance(StepEvent::Done);
    op.advance(StepEvent::Done);
    op.advance(StepEvent::Failed(Error::ResourceExhausted("ips".to_string())));
    assert_eq!(op.phase, RestorePhase::RemoveDst);
    op.advance(StepEvent::Done);
    assert!(matches!(op.outcome(), Err(Error::ResourceExhausted(_))));
}

#[test]
fn a_reset_keeps_to_the_image() {
    assert!(check_reset_image("a", "a").is_ok());
    match check_reset_image("a", "b") {
        Err(e) => assert_eq!(
            e.message(),
            "invalid argument: snapshot image 'a' does not match container image 'b'"
        ),
        Ok(_) => panic!("another image went through"),
    }
}

fn reset_at_prepare(restart: bool) -> ResetOp {
    let opts = ResetToSnapshotOpts::builder().restart(restart).build();
    let mut op = ResetOp::begin("s", &opts).unwrap();
    op.advance(StepEvent::Done);
    assert_eq!(op.phase, ResetPhase::Stat);
    op.advance(StepEvent::Done);
    assert_eq!(op.phase, ResetPhase::Stop);
    // A failed stop is passed over.
    op.advance(StepEvent::Failed(Error::NotImplemented));
    assert_eq!(op.phase, ResetPhase::DeleteTask);
    op.advance(StepEvent::Done);
    assert_eq!(op.phase, ResetPhase::StopForwards);
    op.advance(StepEvent::Done);
    assert_eq!(op.phase, ResetPhase::RemoveActive);
    op.advance(StepEvent::Refused(status(Code::NotFound)));
    assert_eq!(op.phase, ResetPhase::Prepare { attempt: 0 });
    op
}

#[test]
fn a_reset_succeeds_late() {
    let mut op = reset_at_prepare(true);
    op.advance(StepEvent::Refused(status(Code::Unavailable)));
    assert_eq!(op.phase, ResetPhase::Backoff { attempt: 0 });
    assert!(op.error.is_some());
    op.advance(StepEvent::Done);
    assert_eq!(op.phase, ResetPhase::Prepare { attempt: 1 });
    op.advance(StepEvent::Done);
    assert_eq!(op.phase, ResetPhase::Start);
    assert!(op.error.is_none());
    op.advance(StepEvent::Done);
    assert!(op.outcome().is_ok());
}

#[test]
fn a_reset_gives_up_after_five_attempts() {
    let mut op = reset_at_prepare(false);
    for attempt in 0..5 {
        assert_eq!(op.phase, ResetPhase::Prepare { attempt });
        op.advance(StepEvent::Refused(status(Code::Internal)));
        op.advance(StepEvent::Done);
    }
    assert_eq!(op.phase, ResetPhase::Finished);
    assert!(matches!(
        op.outcome(),
        Err(Error::Containerd { op: "reset_prepare_active", .. })
    ));
}

#[test]
fn a_reset_sleeps_longer_each_time() {
    assert_eq!(reset_backoff(0), Duration::from_millis(100));
    assert_eq!(reset_backoff(4), Duration::from_millis(500));
}

#[test]
fn snapshots_are_listed_by_their_labels() {
    assert_eq!(managed_filter(), "labels.\"containerd-manager.snapshot.managed\"==1");
    let info = snapshot_info(SnapshotRecord {
        name: "s".to_string(),
        parent: "p".to_string(),
        labels: StringMap::from_pairs(&[(IMAGE_LABEL, "busybox")]),
        created_at: Some(Timestamp { seconds: 1, nanos: 2 }),
    });
    assert_eq!((info.name.as_str(), info.parent.as_str()), ("s", "p"));
    assert_eq!(info.image.as_deref(), Some("busybox"));
    assert!(info.description.is_none());
    assert_eq!(info.created_at, Some(SystemTime { nanos: 1_000_000_002 }));
}

#[test]
fn a_listing_shows_each_snapshot() {
    let record = |name: &str, labels| SnapshotRecord {
        name: name.to_string(),
        parent: "p".to_string(),
        labels,
        created_at: None,
    };
    let taken = SnapshotContainerOpts::builder().description("before").build();
    let infos = list_snapshots(Ok(vec![
        record("a", snapshot_labels("busybox", &taken)),
        record("b", StringMap::new()),
    ]))
    .unwrap();
    let names: Vec<&str> = infos.iter().map(|i| i.name.as_str()).collect();
    assert_eq!(names, vec!["a", "b"]);
    assert_eq!(infos[0].image.as_deref(), Some("busybox"));
    assert_eq!(infos[0].description.as_deref(), Some("before"));
    assert!(infos[1].image.is_none());
    assert!(matches!(
        list_snapshots(Err((ListStage::Request, status(Code::Internal)))),
        Err(Error::Containerd { op: "snapshot_list", .. })
    ));
    assert!(matches!(
        list_snapshots(Err((ListStage::Stream, status(Code::Internal)))),
        Err(Error::Containerd { op: "snapshot_list_stream", .. })
    ));
}

#[test]
fn only_our_snapshots_are_deleted() {
    let ours = snapshot_labels("busybox", &SnapshotContainerOpts::default());
    match delete_snapshot_call("s", Ok(Some(ours))) {
        Ok(SnapshotCall::Remove { snapshotter, key }) => {
            assert_eq!((snapshotter.as_str(), key.as_str()), ("overlayfs", "s"));
        }
        other => panic!("expected Remove, got {other:?}"),
    }
    assert!(matches!(
        delete_snapshot_call("s", Ok(Some(StringMap::new()))),
        Err(Error::SnapshotNotManaged { name }) if name == "s"
    ));
    assert!(matches!(
        delete_snapshot_call("s", Ok(None)),
        Err(Error::SnapshotNotFound(_))
    ));
    assert!(matches!(
        delete_snapshot_call("s", Err(status(Code::Internal))),
        Err(Error::Containerd { op: "snapshot_stat", .. })
    ));
}

#[test]
fn a_snapshot_commits_the_source_and_prepares_it_anew() {
    let opts = SnapshotContainerOpts::builder().description("d").build();
    let mut op = running_snapshot(false);
    match op.call("overlayfs", "c-snapshot", "busybox", &opts) {
        Some(SnapshotCall::Commit { snapshotter, name, key, labels }) => {
            assert_eq!(snapshotter, "overlayfs");
            assert_eq!((name.as_str(), key.as_str()), ("s", "c-snapshot"));
            assert_eq!(labels.len(), 3);
            assert_eq!(labels.get(IMAGE_LABEL).unwrap(), "busybox");
            assert_eq!(labels.get(DESCRIPTION_LABEL).unwrap(), "d");
        }
        other => panic!("expected Commit, got {other:?}"),
    }
    op.advance(StepEvent::Done);
    assert!(matches!(
        op.call("overlayfs", "c-snapshot", "busybox", &opts),
        Some(SnapshotCall::Prepare { key, parent, .. }) if key == "c-snapshot" && parent == "s"
    ));
    op.advance(StepEvent::Refused(status(Code::Internal)));
    assert!(matches!(
        op.call("overlayfs", "c-snapshot", "busybox", &opts),
        Some(SnapshotCall::Remove { key, .. }) if key == "s"
    ));
}

#[test]
fn a_restore_puts_a_layer_on_the_snapshot() {
    let mut op = RestoreOp::begin("s", "dst").unwrap();
    assert!(matches!(op.call("s"), Some(SnapshotCall::Stat { key, .. }) if key == "s"));
    op.advance(StepEvent::Done);
    assert!(matches!(
        op.call("s"),
        Some(SnapshotCall::Prepare { snapshotter, key, parent })
            if snapshotter == "overlayfs" && key == "dst-snapshot" && parent == "s"
    ));
    op.advance(StepEvent::Done);
    assert!(op.call("s").is_none());
    op.advance(StepEvent::Failed(Error::NotImplemented));
    assert!(matches!(
        op.call("s"),
        Some(SnapshotCall::Remove { key, .. }) if key == "dst-snapshot"
    ));
}

#[test]
fn a_reset_keeps_the_key() {
    let mut op = ResetOp::begin("s", &ResetToSnapshotOpts::default()).unwrap();
    let call = |op: &ResetOp| op.call("native", "c-snapshot", "s");
    op.advance(StepEvent::Done);
    assert!(matches!(
        call(&op),
        Some(SnapshotCall::Stat { snapshotter, key }) if snapshotter == "native" && key == "s"
    ));
    for _ in 0..4 {
        op.advance(StepEvent::Done);
    }
    assert!(matches!(
        call(&op),
        Some(SnapshotCall::Remove { key, .. }) if key == "c-snapshot"
    ));
    op.advance(StepEvent::Done);
    assert!(matches!(
        call(&op),
        Some(SnapshotCall::Prepare { key, parent, .. }) if key == "c-snapshot" && parent == "s"
    ));
}

#[test]
fn deleting_a_missing_snapshot_is_an_error() {
    assert!(delete_snapshot("s", Ok(())).is_ok());
    assert!(matches!(
        delete_snapshot("s", Err(status(Code::NotFound))),
        Err(Error::SnapshotNotFound(n)) if n == "s"
    ));
    assert!(matches!(
        delete_snapshot("s", Err(status(Code::Aborted))),
        Err(Error::Containerd { op: "snapshot_delete", .. })
    ));
}

/// An event, picked by `n`.
fn event(n: u64) -> StepEvent {
    match n % 6 {
        0 | 1 => StepEvent::Done,
        2 => StepEvent::Seen { running: n % 12 < 6 },
        3 => StepEvent::Refused(status(Code::AlreadyExists)),
        4 => StepEvent::Refused(status(Code::NotFound)),
        _ => StepEvent::Failed(Error::NotImplemented),
    }
}

#[test]
fn operations_end_whatever_happens() {
    let mut seed: u64 = 1;
    let mut next = move || {
        seed = seed.wrapping_mul(6364136223846793005).wrapping_add(1442695040888963407);
        seed >> 33
    };
    for round in 0..500 {
        let opts = SnapshotContainerOpts::builder().restart_src(round % 2 == 0).build();
        let mut op = SnapshotOp::begin("s", &opts).unwrap();
        for _ in 0..7 {
            op.advance(event(next()));
        }
        assert_eq!(op.phase, SnapshotPhase::Finished);

        let mut op = RestoreOp::begin("s", "dst").unwrap();
        for _ in 0..4 {
            op.advance(event(next()));
        }
        assert_eq!(op.phase, RestorePhase::Finished);

        let opts = ResetToSnapshotOpts::builder().restart(round % 2 == 0).build();
        let mut op = ResetOp::begin("s", &opts).unwrap();
        for _ in 0..17 {
            op.advance(event(next()));
        }
        assert_eq!(op.phase, ResetPhase::Finished);
    }
}

#[test]
fn a_reset_needs_a_managed_snapshot_of_the_same_image() {
    let labels = || {
        Ok(Some(snapshot_labels("busybox", &SnapshotContainerOpts::default())))
    };
    assert!(check_reset_target("s", "busybox", labels()).is_ok());
    assert_eq!(
        check_reset_target("s", "alpine", labels()).unwrap_err().message(),
        "invalid argument: snapshot image 'busybox' does not match container image 'alpine'"
    );
    assert!(matches!(
        check_reset_target("s", "busybox", Ok(Some(StringMap::new()))),
        Err(Error::SnapshotNotManaged { name }) if name == "s"
    ));
    assert!(matches!(
        check_reset_target("s", "busybox", Ok(None)),
        Err(Error::SnapshotNotFound(name)) if name == "s"
    ));
    assert!(matches!(
        check_reset_target("s", "busybox", Err(status(Code::Internal))),
        Err(Error::Containerd { op: "snapshot_stat", .. })
    ));
}
