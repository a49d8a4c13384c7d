//! Crate-wide error type and `Result` alias.

use vstd::prelude::*;

verus! {

/// gRPC status codes.
#[derive(Debug, Clone, Copy, PartialEq, Eq, Structural)]
pub enum Code {
    Success,
    Cancelled,
    Unknown,
    InvalidArgument,
    DeadlineExceeded,
    NotFound,
    AlreadyExists,
    PermissionDenied,
    ResourceExhausted,
    FailedPrecondition,
    Aborted,
    OutOfRange,
    Unimplemented,
    Internal,
    Unavailable,
    DataLoss,
    Unauthenticated,
}

/// How a gRPC call ended when it did not succeed.
#[derive(Debug, Clone)]
pub struct Status {
    pub code: Code,
    pub message: String,
}

#[verifier::ext_equal]
pub struct StatusSpec {
    pub code: Code,
    pub message: Seq<char>,
}

impl View for Status {
    type V = StatusSpec;

    open spec fn view(&self) -> StatusSpec {
        StatusSpec { code: self.code, message: self.message@ }
    }
}

/// The kinds of I/O failure that callers tell apart.
#[derive(Debug, Clone, Copy, PartialEq, Eq, Structural)]
pub enum IoKind {
    NotFound,
    ConnectionRefused,
    InvalidInput,
    InvalidData,
    TimedOut,
    Other,
}

/// A failed I/O operation.
#[derive(Debug, Clone)]
pub struct IoError {
    pub kind: IoKind,
    pub message: String,
}

#[verifier::ext_equal]
pub struct IoErrorSpec {
    pub kind: IoKind,
    pub message: Seq<char>,
}

impl View for IoError {
    type V = IoErrorSpec;

    open spec fn view(&self) -> IoErrorSpec {
        IoErrorSpec { kind: self.kind, message: self.message@ }
    }
}

#[derive(Debug, Clone)]
pub enum Error {
    SocketNotFound { path: String },
    ConnectionRefused { path: String },
    Transport(String),
    /// A containerd gRPC call failed. `op` names the operation; `source`
    /// preserves the original status for callers that need the code.
    Containerd { op: &'static str, source: Status },
    Io { context: &'static str, source: IoError },
    ImageNotFound(String),
    ContainerAlreadyExists(String),
    ContainerNotFound(String),
    TaskAlreadyExists(String),
    TaskNotFound(String),
    TaskExited(String),
    SnapshotAlreadyExists(String),
    SnapshotNotFound(String),
    SnapshotNotManaged { name: String },
    /// A lock guarding shared client state was poisoned (a thread holding the
    /// lock panicked). Operations that depend on the lock cannot proceed.
    StatePoisoned(&'static str),
    Timeout(String),
    PortForward(String),
    InvalidArgument(String),
    /// A finite resource (bridge IPs, host ports, etc.) is exhausted.
    ResourceExhausted(String),
    NotImplemented,
}

pub type Result<T> = core::result::Result<T, Error>;

#[verifier::ext_equal]
pub enum ErrorSpec {
    SocketNotFound { path: Seq<char> },
    ConnectionRefused { path: Seq<char> },
    Transport(Seq<char>),
    Containerd { op: Seq<char>, source: StatusSpec },
    Io { context: Seq<char>, source: IoErrorSpec },
    ImageNotFound(Seq<char>),
    ContainerAlreadyExists(Seq<char>),
    ContainerNotFound(Seq<char>),
    TaskAlreadyExists(Seq<char>),
    TaskNotFound(Seq<char>),
    TaskExited(Seq<char>),
    SnapshotAlreadyExists(Seq<char>),
    SnapshotNotFound(Seq<char>),
    SnapshotNotManaged { name: Seq<char> },
    StatePoisoned(Seq<char>),
    Timeout(Seq<char>),
    PortForward(Seq<char>),
    InvalidArgument(Seq<char>),
    ResourceExhausted(Seq<char>),
    NotImplemented,
}

impl View for Error {
    type V = ErrorSpec;

    open spec fn view(&self) -> ErrorSpec {
        match *self {
            Error::SocketNotFound { path } => ErrorSpec::SocketNotFound { path: path@ },
            Error::ConnectionRefused { path } => ErrorSpec::ConnectionRefused { path: path@ },
            Error::Transport(s) => ErrorSpec::Transport(s@),
            Error::Containerd { op, source } => ErrorSpec::Containerd {
                op: op@,
                source: source@,
            },
            Error::Io { context, source } => ErrorSpec::Io { context: context@, source: source@ },
            Error::ImageNotFound(s) => ErrorSpec::ImageNotFound(s@),
            Error::ContainerAlreadyExists(s) => ErrorSpec::ContainerAlreadyExists(s@),
            Error::ContainerNotFound(s) => ErrorSpec::ContainerNotFound(s@),
            Error::TaskAlreadyExists(s) => ErrorSpec::TaskAlreadyExists(s@),
            Error::TaskNotFound(s) => ErrorSpec::TaskNotFound(s@),
            Error::TaskExited(s) => ErrorSpec::TaskExited(s@),
            Error::SnapshotAlreadyExists(s) => ErrorSpec::SnapshotAlreadyExists(s@),
            Error::SnapshotNotFound(s) => ErrorSpec::SnapshotNotFound(s@),
            Error::SnapshotNotManaged { name } => ErrorSpec::SnapshotNotManaged { name: name@ },
            Error::StatePoisoned(s) => ErrorSpec::StatePoisoned(s@),
            Error::Timeout(s) => ErrorSpec::Timeout(s@),
            Error::PortForward(s) => ErrorSpec::PortForward(s@),
            Error::InvalidArgument(s) => ErrorSpec::InvalidArgument(s@),
            Error::ResourceExhausted(s) => ErrorSpec::ResourceExhausted(s@),
            Error::NotImplemented => ErrorSpec::NotImplemented,
        }
    }
}

impl ErrorSpec {
    /// The text shown for an error.
    pub open spec fn text(self) -> Seq<char> {
        match self {
            ErrorSpec::SocketNotFound { path } => "containerd socket not found at '"@ + path
                + "'. Is containerd running? (hint: start Colima or set CONTAINERD_SOCKET)"@,
            ErrorSpec::ConnectionRefused { path } =>
                "connection refused to containerd socket at '"@ + path
                + "'. Is containerd running?"@,
            ErrorSpec::Transport(_) => "transport error"@,
            ErrorSpec::Containerd { op, .. } => "containerd "@ + op + " failed"@,
            ErrorSpec::Io { context, .. } => "io error: "@ + context,
            ErrorSpec::ImageNotFound(s) => "image not found: "@ + s,
            ErrorSpec::ContainerAlreadyExists(s) => "container already exists: "@ + s,
            ErrorSpec::ContainerNotFound(s) => "container not found: "@ + s,
            ErrorSpec::TaskAlreadyExists(s) => "task already exists for container: "@ + s,
            ErrorSpec::TaskNotFound(s) => "task not found: "@ + s,
            ErrorSpec::TaskExited(s) => "task exited before becoming ready: "@ + s,
            ErrorSpec::SnapshotAlreadyExists(s) => "snapshot already exists: "@ + s,
            ErrorSpec::SnapshotNotFound(s) => "snapshot not found: "@ + s,
            ErrorSpec::SnapshotNotManaged { name } => "snapshot '"@ + name
                + "' was not created by containerd-manager (missing managed label)"@,
            ErrorSpec::StatePoisoned(s) => "internal client state poisoned: "@ + s,
            ErrorSpec::Timeout(s) => "timeout: "@ + s,
            ErrorSpec::PortForward(s) => "port forwarding error: "@ + s,
            ErrorSpec::InvalidArgument(s) => "invalid argument: "@ + s,
            ErrorSpec::ResourceExhausted(s) => "resource exhausted: "@ + s,
            ErrorSpec::NotImplemented => "not implemented"@,
        }
    }
}

/// An error names what it is about: the container, image, snapshot, path,
/// operation or reason that it carries.
pub proof fn law_error_text(s: Seq<char>, status: StatusSpec, io: IoErrorSpec)
    ensures
        (ErrorSpec::SocketNotFound { path: s }).text() == "containerd socket not found at '"@ + s
            + "'. Is containerd running? (hint: start Colima or set CONTAINERD_SOCKET)"@,
        (ErrorSpec::ConnectionRefused { path: s }).text()
            == "connection refused to containerd socket at '"@ + s + "'. Is containerd running?"@,
        (ErrorSpec::Containerd { op: s, source: status }).text() == "containerd "@ + s
            + " failed"@,
        (ErrorSpec::Io { context: s, source: io }).text() == "io error: "@ + s,
        ErrorSpec::ImageNotFound(s).text() == "image not found: "@ + s,
        ErrorSpec::ContainerAlreadyExists(s).text() == "container already exists: "@ + s,
        ErrorSpec::ContainerNotFound(s).text() == "container not found: "@ + s,
        ErrorSpec::TaskAlreadyExists(s).text() == "task already exists for container: "@ + s,
        ErrorSpec::TaskNotFound(s).text() == "task not found: "@ + s,
        ErrorSpec::TaskExited(s).text() == "task exited before becoming ready: "@ + s,
        ErrorSpec::SnapshotAlreadyExists(s).text() == "snapshot already exists: "@ + s,
        ErrorSpec::SnapshotNotFound(s).text() == "snapshot not found: "@ + s,
        (ErrorSpec::SnapshotNotManaged { name: s }).text() == "snapshot '"@ + s
            + "' was not created by containerd-manager (missing managed label)"@,
        ErrorSpec::StatePoisoned(s).text() == "internal client state poisoned: "@ + s,
        ErrorSpec::Timeout(s).text() == "timeout: "@ + s,
        ErrorSpec::PortForward(s).text() == "port forwarding error: "@ + s,
        ErrorSpec::InvalidArgument(s).text() == "invalid argument: "@ + s,
        ErrorSpec::ResourceExhausted(s).text() == "resource exhausted: "@ + s,
{
}

fn prefixed(prefix: &str, rest: &str) -> (s: String)
    ensures
        s@ == prefix@ + rest@,
{
    let mut s = String::from_str(prefix);
    s.append(rest);
    s
}

fn surrounded(prefix: &str, middle: &str, suffix: &str) -> (s: String)
    ensures
        s@ == prefix@ + middle@ + suffix@,
{
    let mut s = String::from_str(prefix);
    s.append(middle);
    s.append(suffix);
    s
}

impl Error {
    /// The text shown for the error.
    pub fn message(&self) -> (s: String)
        ensures
            s@ == self@.text(),
    {
        match self {
            Error::SocketNotFound { path } => surrounded(
                "containerd socket not found at '",
                path.as_str(),
                "'. Is containerd running? (hint: start Colima or set CONTAINERD_SOCKET)",
            ),
            Error::ConnectionRefused { path } => surrounded(
                "connection refused to containerd socket at '",
                path.as_str(),
                "'. Is containerd running?",
            ),
            Error::Transport(_) => String::from_str("transport error"),
            Error::Containerd { op, .. } => surrounded("containerd ", op, " failed"),
            Error::Io { context, .. } => prefixed("io error: ", context),
            Error::ImageNotFound(s) => prefixed("image not found: ", s.as_str()),
            Error::ContainerAlreadyExists(s) => prefixed(
                "container already exists: ",
                s.as_str(),
            ),
            Error::ContainerNotFound(s) => prefixed("container not found: ", s.as_str()),
            Error::TaskAlreadyExists(s) => prefixed(
                "task already exists for container: ",
                s.as_str(),
            ),
            Error::TaskNotFound(s) => prefixed("task not found: ", s.as_str()),
            Error::TaskExited(s) => prefixed("task exited before becoming ready: ", s.as_str()),
            Error::SnapshotAlreadyExists(s) => prefixed("snapshot already exists: ", s.as_str()),
            Error::SnapshotNotFound(s) => prefixed("snapshot not found: ", s.as_str()),
            Error::SnapshotNotManaged { name } => surrounded(
                "snapshot '",
                name.as_str(),
                "' was not created by containerd-manager (missing managed label)",
            ),
            Error::StatePoisoned(s) => prefixed("internal client state poisoned: ", s),
            Error::Timeout(s) => prefixed("timeout: ", s.as_str()),
            Error::PortForward(s) => prefixed("port forwarding error: ", s.as_str()),
            Error::InvalidArgument(s) => prefixed("invalid argument: ", s.as_str()),
            Error::ResourceExhausted(s) => prefixed("resource exhausted: ", s.as_str()),
            Error::NotImplemented => String::from_str("not implemented"),
        }
    }
}

/// An optional error, by what it says.
pub open spec fn opt_error(e: Option<Error>) -> Option<ErrorSpec> {
    match e {
        Some(x) => Some(x@),
        None => None,
    }
}

} // verus!
