//! Crate-wide constants. All container labels owned by this crate live under
//! the `containerd-manager.*` namespace - keep them here so the namespace
//! stays auditable.

use vstd::prelude::*;

verus! {

pub const DEFAULT_SNAPSHOTTER: &'static str = "overlayfs";

pub const DEFAULT_RUNTIME: &'static str = "io.containerd.runc.v2";

pub const SOCKET_ENV_VAR: &'static str = "CONTAINERD_SOCKET";

/// Default grace period, in seconds, when an op (clone, snapshot, reset) needs
/// to stop the source task to mutate its snapshot.
pub const SNAPSHOT_OP_STOP_TIMEOUT_SECS: u64 = 10;

/// `containerd-manager.port.<container_port> = <host_port>`
pub const PORT_BINDING_LABEL_PREFIX: &'static str = "containerd-manager.port.";

/// Bridge-mode container IP allocated at create time.
pub const BRIDGE_IP_LABEL: &'static str = "containerd-manager.bridge.ip";

/// `NetworkMode` recorded at create time. Value: `"bridge"`, `"host"`, `"isolated"`.
pub const NETWORK_MODE_LABEL: &'static str = "containerd-manager.network.mode";

/// Human-readable name of a container, for reverse lookup.
pub const NAME_LABEL: &'static str = "containerd-manager.name";

pub const BRIDGE_NAME: &'static str = "cni0";

pub const BRIDGE_GATEWAY: &'static str = "10.88.0.1";

/// `/24` subnet - IPs `10.88.1.2`-`10.88.1.254`.
pub const CONTAINER_SUBNET_PREFIX: &'static str = "10.88.1";

/// OCI runtime spec version we generate.
pub const OCI_SPEC_VERSION: &'static str = "1.0.2";

/// Path inside the bundle where the runtime spec mounts the rootfs.
pub const OCI_ROOTFS_PATH: &'static str = "rootfs";

/// `Any.type_url` for the OCI runtime spec payload attached to a container.
pub const OCI_SPEC_TYPE_URL: &'static str =
    "types.containerd.io/opencontainers/runtime-spec/1/Spec";

/// PATH provided to OCI prestart/poststart/poststop hooks. Hooks run with a
/// near-empty environment by default; tools like `ip`, `socat`, `nohup` must
/// be reachable.
pub const HOOK_PATH: &'static str =
    "PATH=/usr/local/sbin:/usr/local/bin:/usr/sbin:/usr/bin:/sbin:/bin";

} // verus!
