use containerd_manager::clone::{
    clone_base_key, clone_create_opts, CloneContainerOpts, CloneOp, ClonePhase, CLONE_BASE_SUFFIX,
};
use containerd_manager::create::ports_to_allocate;
use containerd_manager::error::{Code, Status};
use containerd_manager::maps::StringMap;
use containerd_manager::snapshot_util::{
    is_managed_label, network_from_labels, SnapshotCall, StepEvent,
};
use containerd_manager::{ContainerId, ContainerInfo, Error, NetworkMode};

#[test]
fn default_inherits_src_ports() {
    assert!(CloneContainerOpts::default().inherit_src_ports);
}

#[test]
fn clone_base_suffix_stable() {
    // Snapshot keys are user-visible via ctr snapshots ls; locking in the
    // current format so changes are intentional.
    let base = format!("primed{CLONE_BASE_SUFFIX}");
    assert_eq!(base, "primed-clone-base");
    assert_eq!(clone_base_key("primed"), base);
}

fn src_info() -> ContainerInfo {
    ContainerInfo {
        id: ContainerId::new("src").unwrap(),
        image: "busybox".to_string(),
        labels: StringMap::from_pairs(&[
            ("app", "web"),
            ("containerd-manager.network.mode", "isolated"),
            ("containerd-manager.bridge.ip", "10.88.1.9"),
            ("containerd-manager.port.80", "5001"),
            ("tier", "gold"),
        ]),
        env: StringMap::from_pairs(&[("A", "1"), ("B", "2")]),
        mounts: vec![],
        task: None,
        port_forwards: vec![(5001, 80)],
    }
}

#[test]
fn a_clone_inherits_and_overrides() {
    let opts = CloneContainerOpts::builder()
        .env("B", "3")
        .label("tier", "silver")
        .build();
    let create = clone_create_opts(&src_info(), "dst-snapshot", &opts).unwrap();
    assert_eq!(create.env.get("A").unwrap(), "1");
    assert_eq!(create.env.get("B").unwrap(), "3");
    assert_eq!(create.labels.len(), 2);
    assert_eq!(create.labels.get("app").unwrap(), "web");
    assert_eq!(create.labels.get("tier").unwrap(), "silver");
    assert_eq!(create.network.mode, NetworkMode::Isolated);
    assert_eq!(create.port_bindings, vec![(0, 80)]);
    assert_eq!(create.from_existing_snapshot.as_deref(), Some("dst-snapshot"));
    assert!(create.cmd.is_none());
    assert!(create.mounts.is_empty());
}

#[test]
fn a_clone_can_choose_ports_and_network() {
    let opts = CloneContainerOpts::builder()
        .inherit_src_ports(false)
        .port_bindings(vec![443])
        .network(NetworkMode::Bridge)
        .restart_src(true)
        .build();
    assert!(opts.restart_src);
    let create = clone_create_opts(&src_info(), "k", &opts).unwrap();
    assert_eq!(create.port_bindings, vec![(0, 443)]);
    assert_eq!(create.network.mode, NetworkMode::Bridge);
}

#[test]
fn ports_of_a_clone() {
    let bridged = |inherit: bool, ports: Vec<u16>| {
        let opts = CloneContainerOpts::builder()
            .inherit_src_ports(inherit)
            .port_bindings(ports)
            .network(NetworkMode::Bridge)
            .build();
        let create = clone_create_opts(&src_info(), "k", &opts).unwrap();
        ports_to_allocate(&create)
    };
    let src: Vec<u16> = src_info().port_forwards.iter().map(|f| f.1).collect();
    assert_eq!(bridged(true, vec![1]), src);
    assert_eq!(bridged(false, vec![443, 80]), vec![443, 80]);
    assert_eq!(bridged(false, vec![]), vec![27017]);

    let mut portless = src_info();
    portless.port_forwards.clear();
    let opts = CloneContainerOpts::builder().network(NetworkMode::Bridge).build();
    let create = clone_create_opts(&portless, "k", &opts).unwrap();
    assert!(ports_to_allocate(&create).is_empty());

    let host = CloneContainerOpts::builder()
        .inherit_src_ports(false)
        .network(NetworkMode::Host)
        .build();
    assert!(clone_create_opts(&src_info(), "k", &host).unwrap().port_bindings.is_empty());
}

#[test]
fn managed_labels_cannot_be_overridden() {
    for key in [
        "containerd-manager.network.mode",
        "containerd-manager.bridge.ip",
        "containerd-manager.port.80",
    ] {
        assert!(is_managed_label(key));
        let opts = CloneContainerOpts::builder().label("ok", "1").label(key, "x").build();
        let err = clone_create_opts(&src_info(), "k", &opts).unwrap_err();
        assert_eq!(
            err.message(),
            format!(
                "invalid argument: label '{key}' is managed by containerd-manager \
                 and cannot be overridden"
            )
        );
    }
    assert!(!is_managed_label("containerd-manager.name"));
    assert!(!is_managed_label("app"));
}

#[test]
fn network_mode_comes_from_labels() {
    let mode = |v: &str| {
        network_from_labels(&StringMap::from_pairs(&[("containerd-manager.network.mode", v)]))
    };
    assert_eq!(mode("host"), NetworkMode::Host);
    assert_eq!(mode("isolated"), NetworkMode::Isolated);
    assert_eq!(mode("bridge"), NetworkMode::Bridge);
    assert_eq!(mode("odd"), NetworkMode::Bridge);
    assert_eq!(network_from_labels(&StringMap::new()), NetworkMode::Bridge);
}

fn refused(code: Code) -> StepEvent {
    StepEvent::Refused(Status { code, message: String::new() })
}

fn run(restart_src: bool, events: Vec<StepEvent>) -> (Vec<ClonePhase>, CloneOp) {
    let opts = CloneContainerOpts::builder().restart_src(restart_src).build();
    let mut op = CloneOp::begin("dst", &opts);
    let mut phases = vec![op.phase];
    for ev in events {
        op.advance(ev);
        phases.push(op.phase);
    }
    (phases, op)
}

#[test]
fn first_clone_of_a_running_source() {
    let (phases, op) = run(
        true,
        vec![
            StepEvent::Seen { running: true },
            StepEvent::Done,
            StepEvent::Done,
            StepEvent::Done,
            refused(Code::NotFound),
            StepEvent::Done,
            StepEvent::Done,
            StepEvent::Done,
            StepEvent::Done,
            StepEvent::Failed(Error::NotImplemented),
        ],
    );
    assert_eq!(
        phases,
        vec![
            ClonePhase::Inspect,
            ClonePhase::Stop,
            ClonePhase::DeleteTask,
            ClonePhase::Fetch,
            ClonePhase::StatBase,
            ClonePhase::Commit,
            ClonePhase::Reprepare,
            ClonePhase::PrepareDst,
            ClonePhase::CreateDst,
            ClonePhase::RestartSrc,
            ClonePhase::Finished,
        ]
    );
    // A failed restart does not fail the clone.
    assert!(op.outcome().is_ok());
}

#[test]
fn a_clone_works_on_the_base() {
    let opts = CloneContainerOpts::default();
    let mut op = CloneOp::begin("dst", &opts);
    let call = |op: &CloneOp| op.call("src", "overlayfs", "src-snapshot");
    op.advance(StepEvent::Seen { running: false });
    assert!(call(&op).is_none());
    op.advance(StepEvent::Done);
    assert!(matches!(
        call(&op),
        Some(SnapshotCall::Stat { snapshotter, key })
            if snapshotter == "overlayfs" && key == "src-clone-base"
    ));
    op.advance(refused(Code::NotFound));
    assert!(matches!(
        call(&op),
        Some(SnapshotCall::Commit { name, key, labels, .. })
            if name == "src-clone-base" && key == "src-snapshot" && labels.len() == 0
    ));
    op.advance(StepEvent::Done);
    assert!(matches!(
        call(&op),
        Some(SnapshotCall::Prepare { key, parent, .. })
            if key == "src-snapshot" && parent == "src-clone-base"
    ));
    op.advance(StepEvent::Done);
    assert!(matches!(
        call(&op),
        Some(SnapshotCall::Prepare { key, parent, .. })
            if key == "dst-snapshot" && parent == "src-clone-base"
    ));
    op.advance(StepEvent::Done);
    op.advance(refused(Code::Internal));
    assert!(matches!(
        call(&op),
        Some(SnapshotCall::Remove { key, .. }) if key == "dst-snapshot"
    ));
}

#[test]
fn later_clone_reuses_the_base() {
    let (phases, op) = run(
        false,
        vec![
            StepEvent::Seen { running: false },
            StepEvent::Done,
            StepEvent::Done,
            StepEvent::Done,
            StepEvent::Done,
        ],
    );
    assert_eq!(
        phases[2..],
        [
            ClonePhase::StatBase,
            ClonePhase::PrepareDst,
            ClonePhase::CreateDst,
            ClonePhase::Finished
        ]
    );
    assert!(op.outcome().is_ok());
}

#[test]
fn losing_the_commit_race_is_fine() {
    let (phases, _) = run(
        false,
        vec![
            StepEvent::Seen { running: false },
            StepEvent::Done,
            refused(Code::NotFound),
            refused(Code::AlreadyExists),
        ],
    );
    assert_eq!(phases.last(), Some(&ClonePhase::PrepareDst));
}

#[test]
fn an_existing_destination_is_reported_and_the_source_restarted() {
    let (phases, op) = run(
        true,
        vec![
            StepEvent::Seen { running: true },
            StepEvent::Done,
            StepEvent::Done,
            StepEvent::Done,
            StepEvent::Done,
            refused(Code::AlreadyExists),
            StepEvent::Done,
        ],
    );
    assert_eq!(phases[6..], [ClonePhase::RestartSrc, ClonePhase::Finished]);
    assert!(matches!(op.outcome(), Err(Error::ContainerAlreadyExists(d)) if d == "dst"));
}

#[test]
fn an_orphan_snapshot_is_removed() {
    let (phases, op) = run(
        false,
        vec![
            StepEvent::Seen { running: false },
            StepEvent::Done,
            StepEvent::Done,
            StepEvent::Done,
            StepEvent::Failed(Error::ImageNotFound("busybox".to_string())),
            StepEvent::Done,
        ],
    );
    assert_eq!(phases[5..], [ClonePhase::RemoveDst, ClonePhase::Finished]);
    assert!(matches!(op.outcome(), Err(Error::ImageNotFound(_))));
}

#[test]
fn failures_name_their_operation() {
    let cases: Vec<(Vec<StepEvent>, &str)> = vec![
        (vec![refused(Code::Internal)], "containerd clone_stat_base failed"),
        (
            vec![refused(Code::NotFound), refused(Code::Internal)],
            "containerd clone_commit_src failed",
        ),
        (
            vec![refused(Code::NotFound), StepEvent::Done, refused(Code::Internal)],
            "containerd clone_reprepare_src failed",
        ),
        (
            vec![StepEvent::Done, refused(Code::Internal)],
            "containerd clone_prepare_dst failed",
        ),
    ];
    for (tail, want) in cases {
        let mut events = vec![StepEvent::Seen { running: false }, StepEvent::Done];
        events.extend(tail);
        let (_, op) = run(true, events);
        assert_eq!(op.phase, ClonePhase::Finished);
        assert_eq!(op.outcome().unwrap_err().message(), want);
    }
}

#[test]
fn a_source_that_cannot_be_stopped_ends_the_clone() {
    let (phases, op) = run(
        true,
        vec![
            StepEvent::Seen { running: true },
            StepEvent::Failed(Error::Timeout("slow".to_string())),
        ],
    );
    assert_eq!(phases.last(), Some(&ClonePhase::Finished));
    assert!(matches!(op.outcome(), Err(Error::Timeout(_))));
}

#[test]
fn a_clone_ends_whatever_happens() {
    let mut seed: u64 = 7;
    for round in 0..500 {
        let opts = CloneContainerOpts::builder().restart_src(round % 2 == 0).build();
        let mut op = CloneOp::begin("dst", &opts);
        for _ in 0..11 {
            seed = seed.wrapping_mul(6364136223846793005).wrapping_add(1442695040888963407);
            op.advance(match (seed >> 33) % 5 {
                0 | 1 => StepEvent::Done,
                2 => StepEvent::Seen { running: true },
                3 => refused(Code::NotFound),
                _ => refused(Code::AlreadyExists),
            });
        }
        assert_eq!(op.phase, ClonePhase::Finished);
    }
}
