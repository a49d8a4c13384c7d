//! containerd-manager: the logic of managing containerd (containers, tasks,
//! images), without the calls themselves.
//!
//! What containerd, the file system and the clock bring back goes in as plain
//! values; what to ask for next, and what to make of it, comes out. Operations
//! that take several calls are state machines.

pub mod bridge;
pub mod client;
pub mod clone;
pub mod connect;
pub mod consts;
pub mod container;
pub mod create;
pub mod error;
pub mod exec;
pub mod handles;
pub mod image;
pub mod inspect;
pub mod json;
pub mod list;
pub mod log_tailer;
pub mod logs;
pub mod maps;
pub mod metadata;
pub mod numeral;
pub mod oci;
pub mod outside;
pub mod paths;
pub mod port_forward;
pub mod readiness;
pub mod records;
pub mod snapshot;
pub mod snapshot_util;
pub mod task;
pub mod text;
pub mod time;
pub mod types;
pub mod util;

pub use client::Client;
pub use clone::CloneContainerOpts;
pub use container::{CreateContainerOpts, Mount, NetworkMode, NetworkOpts};
pub use error::{Error, Result};
pub use exec::{ExecOpts, ExecOutput, DEFAULT_EXEC_MAX_OUTPUT_BYTES};
pub use logs::LogsFilter;
pub use port_forward::PortForwardOpts;
pub use readiness::{parse_healthcheck, HealthCheck, HealthStatus, ReadinessStrategy};
pub use records::{LogEntry, LogStream};
pub use snapshot::{
    ResetToSnapshotOpts, RestoreContainerOpts, SnapshotContainerOpts, SnapshotInfo,
};
pub use task::TaskId;
pub use types::{ContainerId, ContainerInfo, TaskInfo, TaskStatus};
