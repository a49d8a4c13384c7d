use containerd_manager::consts::{
    BRIDGE_IP_LABEL, DEFAULT_SNAPSHOTTER, NETWORK_MODE_LABEL, OCI_ROOTFS_PATH, OCI_SPEC_TYPE_URL,
    OCI_SPEC_VERSION, PORT_BINDING_LABEL_PREFIX,
};

// Pinned: persisted on every container record; silent renames orphan
// label-keyed lookups on upgrade.
#[test]
fn label_keys_pinned() {
    assert_eq!(PORT_BINDING_LABEL_PREFIX, "containerd-manager.port.");
    assert_eq!(BRIDGE_IP_LABEL, "containerd-manager.bridge.ip");
    assert_eq!(NETWORK_MODE_LABEL, "containerd-manager.network.mode");
}

#[test]
fn oci_constants_pinned() {
    assert_eq!(OCI_SPEC_VERSION, "1.0.2");
    assert_eq!(
        OCI_SPEC_TYPE_URL,
        "types.containerd.io/opencontainers/runtime-spec/1/Spec"
    );
    assert_eq!(OCI_ROOTFS_PATH, "rootfs");
}

#[test]
fn snapshotter_pinned() {
    // The snapshotter name is embedded in every container record; changing
    // it would break snapshot lookups on existing containers.
    assert_eq!(DEFAULT_SNAPSHOTTER, "overlayfs");
}
