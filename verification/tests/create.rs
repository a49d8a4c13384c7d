use containerd_manager::container::{
    CreateContainerOpts, ImageMetadata, NetworkMode, NetworkOpts,
};
use containerd_manager::create::{
    container_record, filter_by_name, host_container_pairs, image_target, name_is_free,
    pair_ports, ports_to_allocate, raw_config_target, BridgeConfig, CreateOp, CreatePhase,
    ImageRecord,
};
use containerd_manager::error::{Code, Status};
use containerd_manager::inspect::container_to_info;
use containerd_manager::oci::{ImageConfig, RunConfig};
use containerd_manager::snapshot::restore_create_opts;
use containerd_manager::snapshot_util::{SnapshotCall, StepEvent};
use containerd_manager::{Error, RestoreContainerOpts};

fn status(code: Code) -> Status {
    Status { code, message: "m".to_string() }
}

fn metadata() -> ImageMetadata {
    ImageMetadata {
        chain_id: "sha256:chain".to_string(),
        config: ImageConfig {
            config: Some(RunConfig {
                labels: Some(vec![
                    ("from".to_string(), "image".to_string()),
                    ("containerd-manager.network.mode".to_string(), "host".to_string()),
                ]),
                entrypoint: None,
                cmd: None,
                env: Some(vec!["PATH=/bin".to_string()]),
                working_dir: None,
            }),
            diff_ids: vec!["sha256:chain".to_string()],
        },
        raw_config: vec![],
    }
}

#[test]
fn names_are_checked_and_looked_for() {
    assert_eq!(filter_by_name("web-1"), "labels.\"containerd-manager.name\"==web-1");
    assert!(matches!(
        CreateOp::begin("c1", "../x", &CreateContainerOpts::default()),
        Err(Error::InvalidArgument(_))
    ));
    assert!(name_is_free("web-1", Ok(0)).is_ok());
    assert!(matches!(
        name_is_free("web-1", Ok(2)),
        Err(Error::ContainerAlreadyExists(n)) if n == "web-1"
    ));
    assert!(matches!(
        name_is_free("web-1", Err(status(Code::Internal))),
        Err(Error::Containerd { op: "list_containers_for_name_check", .. })
    ));
}

#[test]
fn images_resolve_to_their_manifest() {
    let found = || Ok(Some(ImageRecord { target: Some("sha256:m".to_string()) }));
    assert_eq!(image_target("busybox", found()).unwrap(), "sha256:m");
    assert_eq!(raw_config_target("busybox", found()).unwrap(), "sha256:m");
    assert!(matches!(
        image_target("busybox", Ok(None)),
        Err(Error::ImageNotFound(i)) if i == "busybox"
    ));
    assert!(matches!(
        image_target("busybox", Err(status(Code::NotFound))),
        Err(Error::ImageNotFound(_))
    ));
    assert!(matches!(
        image_target("busybox", Err(status(Code::Unavailable))),
        Err(Error::Containerd { op: "get_image", .. })
    ));
    assert_eq!(
        image_target("busybox", Ok(Some(ImageRecord { target: None })))
            .unwrap_err()
            .message(),
        "invalid argument: image has no target"
    );
    assert_eq!(
        raw_config_target("busybox", Ok(Some(ImageRecord { target: None })))
            .unwrap_err()
            .message(),
        "image not found: busybox: no target descriptor"
    );
}

fn begun(opts: &CreateContainerOpts) -> CreateOp {
    CreateOp::begin("c1", "web", opts).unwrap()
}

fn take(mut op: CreateOp, events: Vec<StepEvent>) -> (CreateOp, Vec<CreatePhase>) {
    let mut phases = vec![op.phase];
    for ev in events {
        op.advance(ev);
        phases.push(op.phase);
    }
    (op, phases)
}

#[test]
fn a_create_goes_through_its_phases() {
    let plain = CreateContainerOpts::default();
    let well = || vec![
        StepEvent::Done,
        StepEvent::Done,
        StepEvent::Done,
        StepEvent::Done,
        StepEvent::Done,
        StepEvent::Done,
    ];
    let (op, phases) = take(begun(&plain), well());
    assert_eq!(
        phases,
        vec![
            CreatePhase::CheckName,
            CreatePhase::GetImage,
            CreatePhase::ReadMetadata,
            CreatePhase::Prepare,
            CreatePhase::Allocate,
            CreatePhase::Store,
            CreatePhase::Finished,
        ]
    );
    assert!(op.outcome().is_ok());
    // A layer that was handed over is not prepared, and only bridge mode
    // allocates.
    let adopting = CreateContainerOpts::builder()
        .from_existing_snapshot("ready")
        .network(NetworkOpts { mode: NetworkMode::Host })
        .build();
    let (op, phases) = take(begun(&adopting), well());
    assert_eq!(
        phases[2..5],
        [CreatePhase::ReadMetadata, CreatePhase::Store, CreatePhase::Finished]
    );
    assert!(op.outcome().is_ok());
}

#[test]
fn a_create_prepares_on_the_image() {
    let plain = CreateContainerOpts::default();
    let done = || vec![StepEvent::Done, StepEvent::Done, StepEvent::Done];
    let (op, _) = take(begun(&plain), done());
    match op.call("sha256:chain") {
        Some(SnapshotCall::Prepare { snapshotter, key, parent }) => {
            assert_eq!(snapshotter, "overlayfs");
            assert_eq!(key, "c1-snapshot");
            assert_eq!(parent, "sha256:chain");
        }
        other => panic!("expected Prepare, got {other:?}"),
    }
    let mut events = done();
    events.push(StepEvent::Refused(status(Code::AlreadyExists)));
    let (op, _) = take(begun(&plain), events);
    assert!(op.call("sha256:chain").is_none());
    assert!(matches!(op.outcome(), Err(Error::ContainerAlreadyExists(n)) if n == "web"));
    let mut events = done();
    events.push(StepEvent::Refused(status(Code::Internal)));
    let (op, _) = take(begun(&plain), events);
    assert!(matches!(op.outcome(), Err(Error::Containerd { op: "prepare_snapshot", .. })));
}

#[test]
fn a_create_fails_with_its_first_error() {
    let plain = CreateContainerOpts::default();
    for (before, op_name) in [
        (0, "list_containers_for_name_check"),
        (1, "get_image"),
        (2, "read_content"),
        (4, "list_containers"),
    ] {
        let mut events: Vec<StepEvent> = (0..before).map(|_| StepEvent::Done).collect();
        events.push(StepEvent::Refused(status(Code::Unavailable)));
        let (op, phases) = take(begun(&plain), events);
        assert_eq!(phases.last(), Some(&CreatePhase::Finished));
        assert!(matches!(op.outcome(), Err(Error::Containerd { op, .. }) if op == op_name));
    }
}

#[test]
fn bridge_mode_allocates_ports() {
    assert_eq!(ports_to_allocate(&CreateContainerOpts::default()), vec![27017]);
    let bound = CreateContainerOpts::builder()
        .port_binding(1, 80)
        .port_binding(2, 443)
        .build();
    assert_eq!(ports_to_allocate(&bound), vec![80, 443]);
    let host = CreateContainerOpts::builder()
        .port_binding(1, 80)
        .network(NetworkOpts { mode: NetworkMode::Host })
        .build();
    assert!(ports_to_allocate(&host).is_empty());
    assert_eq!(pair_ports(&vec![80, 443], &vec![5001, 5002]), vec![(80, 5001), (443, 5002)]);
    let bridge = Some(BridgeConfig {
        ip: "10.88.1.5".to_string(),
        ports: vec![(80, 5001), (443, 5002)],
    });
    assert_eq!(host_container_pairs(&bridge, &bound), vec![(5001, 80), (5002, 443)]);
    assert_eq!(host_container_pairs(&None, &host), vec![(1, 80)]);
}

#[test]
fn a_record_holds_everything() {
    let opts = CreateContainerOpts::builder()
        .env("A", "b")
        .label("from", "user")
        .label("containerd-manager.bridge.ip", "1.2.3.4")
        .label("nerdctl/name", "mine")
        .port_binding(0, 80)
        .build();
    let bridge = Some(BridgeConfig { ip: "10.88.1.5".to_string(), ports: vec![(80, 5001)] });
    let record =
        container_record("c1", "web", "ns", "busybox", &metadata(), &opts, &bridge).unwrap();
    assert_eq!(record.id, "c1");
    assert_eq!(record.image, "busybox");
    assert_eq!(record.runtime.as_deref(), Some("io.containerd.runc.v2"));
    assert_eq!(record.snapshotter, "overlayfs");
    assert_eq!(record.snapshot_key, "c1-snapshot");
    let get = |k: &str| record.labels.get(k).cloned().unwrap();
    assert_eq!(get("from"), "user");
    // Neither the image nor the user overrides what the crate decides.
    assert_eq!(get("containerd-manager.network.mode"), "bridge");
    assert_eq!(get("containerd-manager.bridge.ip"), "10.88.1.5");
    assert_eq!(get("containerd-manager.port.80"), "5001");
    assert_eq!(get("containerd-manager.name"), "web");
    assert_eq!(get("nerdctl/name"), "web");
    assert_eq!(get("nerdctl/namespace"), "ns");
    assert_eq!(record.labels.len(), 7);
    // What was written is what inspecting shows.
    let info = container_to_info(record, None).unwrap();
    assert_eq!(info.env.get("A").unwrap(), "b");
    assert_eq!(info.env.get("PATH").unwrap(), "/bin");
    assert_eq!(info.port_forwards, vec![(5001, 80)]);
}

#[test]
fn a_restore_without_ports_has_no_bindings() {
    let opts = restore_create_opts("dst-snapshot", &RestoreContainerOpts::default());
    let wanted = ports_to_allocate(&opts);
    assert!(wanted.is_empty());
    let bridge = Some(BridgeConfig {
        ip: "10.88.1.5".to_string(),
        ports: pair_ports(&wanted, &vec![]),
    });
    let record =
        container_record("dst", "dst", "ns", "busybox", &metadata(), &opts, &bridge).unwrap();
    assert_eq!(record.labels.get("containerd-manager.network.mode").unwrap(), "bridge");
    assert!(record.labels.get("containerd-manager.port.27017").is_none());
    assert_eq!(record.snapshot_key, "dst-snapshot");
    assert!(container_to_info(record, None).unwrap().port_forwards.is_empty());

    let opts = RestoreContainerOpts::builder().port_bindings(vec![80]).build();
    assert_eq!(ports_to_allocate(&restore_create_opts("k", &opts)), vec![80]);
}

#[test]
fn a_record_outside_bridge_mode_has_no_address() {
    let opts = CreateContainerOpts::builder()
        .network(NetworkOpts { mode: NetworkMode::Isolated })
        .port_binding(8080, 80)
        .build();
    let record =
        container_record("c1", "c1", "ns", "busybox", &metadata(), &opts, &None).unwrap();
    assert!(!record.labels.contains_key("containerd-manager.bridge.ip"));
    assert_eq!(record.labels.get("containerd-manager.port.80").unwrap(), "8080");
    assert_eq!(
        record.labels.get("containerd-manager.network.mode").unwrap(),
        "isolated"
    );
    let handed_over = CreateContainerOpts::builder().from_existing_snapshot("ready").build();
    let record =
        container_record("c1", "c1", "ns", "busybox", &metadata(), &handed_over, &None).unwrap();
    assert_eq!(record.snapshot_key, "ready");
}

#[test]
fn a_failed_create_rolls_its_own_snapshot_back() {
    let host = NetworkOpts { mode: NetworkMode::Host };
    let plain = CreateContainerOpts::builder().network(host).build();
    let refused = |code| {
        vec![
            StepEvent::Done,
            StepEvent::Done,
            StepEvent::Done,
            StepEvent::Done,
            StepEvent::Refused(status(code)),
        ]
    };
    let (mut op, phases) = take(begun(&plain), refused(Code::AlreadyExists));
    assert_eq!(phases.last(), Some(&CreatePhase::RollBack));
    assert!(matches!(
        op.call("sha256:chain"),
        Some(SnapshotCall::Remove { key, .. }) if key == "c1-snapshot"
    ));
    op.advance(StepEvent::Refused(status(Code::Internal)));
    assert_eq!(op.phase, CreatePhase::Finished);
    assert!(matches!(op.outcome(), Err(Error::ContainerAlreadyExists(n)) if n == "web"));
    // What was handed over is left in place.
    let host = NetworkOpts { mode: NetworkMode::Host };
    let adopting =
        CreateContainerOpts::builder().network(host).from_existing_snapshot("ready").build();
    let mut events = refused(Code::Internal);
    events.remove(0);
    let (op, phases) = take(begun(&adopting), events);
    assert_eq!(phases.last(), Some(&CreatePhase::Finished));
    assert!(matches!(op.outcome(), Err(Error::Containerd { op: "create_container", .. })));
}
