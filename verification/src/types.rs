//! Data types returned by inspect / list operations, plus the
//! [`ContainerId`] newtype with built-in validation.

use vstd::prelude::*;

use crate::error::{Error, Result};
use crate::maps::StringMap;
use crate::text;
use crate::util;

verus! {

/// Validated containerd identifier. Construction is the only way to obtain
/// one, and it enforces containerd's identifier rules (see
/// [`crate::util::validate_identifier`]).
///
/// The newtype prevents shell injection / path traversal at the API boundary:
/// the crate interpolates container IDs into OCI hook shell scripts and into
/// `~/.containerd-manager/` filesystem paths.
#[derive(Debug, PartialEq, Eq, Hash)]
pub struct ContainerId(String);

impl View for ContainerId {
    type V = Seq<char>;

    closed spec fn view(&self) -> Seq<char> {
        self.0@
    }
}

impl ContainerId {
    #[verifier::type_invariant]
    spec fn valid(self) -> bool {
        util::valid_identifier(text::utf8(self.0@))
    }

    pub fn new(id: &str) -> (out: Result<Self>)
        ensures
            match out {
                Ok(c) => c@ == id@ && util::valid_identifier(text::utf8(id@)),
                Err(e) => !util::valid_identifier(text::utf8(id@)) && e@
                    == crate::error::ErrorSpec::InvalidArgument(util::identifier_complaint(id@)),
            },
    {
        match util::validate_identifier(id) {
            Ok(_) => Ok(ContainerId(String::from_str(id))),
            Err(e) => Err(e),
        }
    }

    pub fn as_str(&self) -> (s: &str)
        ensures
            s@ == self@,
            util::valid_identifier(text::utf8(self@)),
    {
        proof {
            use_type_invariant(self);
        }
        self.0.as_str()
    }

    /// The identifier as an owned string.
    pub fn to_string(&self) -> (s: String)
        ensures
            s@ == self@,
    {
        self.0.clone()
    }
}

impl Clone for ContainerId {
    fn clone(&self) -> (copy: Self)
        ensures
            copy@ == self@,
    {
        proof {
            use_type_invariant(self);
        }
        ContainerId(self.0.clone())
    }
}

impl TryFrom<&str> for ContainerId {
    type Error = Error;

    fn try_from(s: &str) -> (out: Result<Self>)
        ensures
            match out {
                Ok(c) => c@ == s@ && util::valid_identifier(text::utf8(s@)),
                Err(e) => !util::valid_identifier(text::utf8(s@)) && e@
                    == crate::error::ErrorSpec::InvalidArgument(util::identifier_complaint(s@)),
            },
    {
        Self::new(s)
    }
}

impl vstd::std_specs::convert::TryFromSpecImpl<&str> for ContainerId {
    open spec fn obeys_try_from_spec() -> bool {
        false
    }

    open spec fn try_from_spec(s: &str) -> Result<Self> {
        arbitrary()
    }
}

impl TryFrom<String> for ContainerId {
    type Error = Error;

    fn try_from(s: String) -> (out: Result<Self>)
        ensures
            match out {
                Ok(c) => c@ == s@ && util::valid_identifier(text::utf8(s@)),
                Err(e) => !util::valid_identifier(text::utf8(s@)) && e@
                    == crate::error::ErrorSpec::InvalidArgument(util::identifier_complaint(s@)),
            },
    {
        Self::new(s.as_str())
    }
}

impl vstd::std_specs::convert::TryFromSpecImpl<String> for ContainerId {
    open spec fn obeys_try_from_spec() -> bool {
        false
    }

    open spec fn try_from_spec(s: String) -> Result<Self> {
        arbitrary()
    }
}

#[derive(Debug)]
pub struct ContainerInfo {
    pub id: ContainerId,
    pub image: String,
    pub labels: StringMap,
    pub env: StringMap,
    /// `(source, destination)` pairs.
    pub mounts: Vec<(String, String)>,
    pub task: Option<TaskInfo>,
    /// `(host_port, container_port)` pairs.
    pub port_forwards: Vec<(u16, u16)>,
}

#[derive(Debug, Clone, Copy, PartialEq, Eq, Structural)]
pub struct TaskInfo {
    pub pid: u32,
    pub status: TaskStatus,
    /// Set only when `status == Stopped`. `None` for running, paused, or
    /// unknown tasks.
    pub exit_code: Option<i32>,
}

#[derive(Debug, Clone, Copy, PartialEq, Eq, Structural)]
pub enum TaskStatus {
    Running,
    Stopped,
    Paused,
    Unknown,
}

/// Containerd's task states, by their numbers.
pub const STATUS_CREATED: i32 = 1;

pub const STATUS_RUNNING: i32 = 2;

pub const STATUS_STOPPED: i32 = 3;

pub const STATUS_PAUSED: i32 = 4;

pub const STATUS_PAUSING: i32 = 5;

impl TaskStatus {
    /// The status for a task state number. `Created` is a transient
    /// pre-running state and surfaces as `Running`.
    pub open spec fn of(status: i32) -> TaskStatus {
        if status == STATUS_RUNNING || status == STATUS_CREATED {
            TaskStatus::Running
        } else if status == STATUS_STOPPED {
            TaskStatus::Stopped
        } else if status == STATUS_PAUSED || status == STATUS_PAUSING {
            TaskStatus::Paused
        } else {
            TaskStatus::Unknown
        }
    }
}

/// A task that was created or runs counts as running, one that is paused or
/// about to be as paused; only state 3 is a stop, and a number that stands for
/// no state says nothing.
pub proof fn law_task_status(status: i32)
    ensures
        TaskStatus::of(status) == TaskStatus::Running <==> status == 1 || status == 2,
        TaskStatus::of(status) == TaskStatus::Stopped <==> status == 3,
        TaskStatus::of(status) == TaskStatus::Paused <==> status == 4 || status == 5,
        TaskStatus::of(status) == TaskStatus::Unknown <==> status < 1 || status > 5,
{
}

impl From<i32> for TaskStatus {
    fn from(status: i32) -> (s: Self) {
        if status == STATUS_RUNNING {
            TaskStatus::Running
        } else if status == STATUS_STOPPED {
            TaskStatus::Stopped
        } else if status == STATUS_PAUSED {
            TaskStatus::Paused
        } else if status == STATUS_PAUSING {
            TaskStatus::Paused
        } else if status == STATUS_CREATED {
            TaskStatus::Running
        } else {
            TaskStatus::Unknown
        }
    }
}

impl vstd::std_specs::convert::FromSpecImpl<i32> for TaskStatus {
    open spec fn obeys_from_spec() -> bool {
        true
    }

    open spec fn from_spec(status: i32) -> TaskStatus {
        TaskStatus::of(status)
    }
}

} // verus!
