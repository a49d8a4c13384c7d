//! Create/start/stop/delete tasks; pause/unpause; delete containers.
//!
//! Operations that take several calls to containerd are state machines: a
//! phase says what to do next, and what came of it decides the phase after.

use vstd::prelude::*;

use crate::consts::DEFAULT_SNAPSHOTTER;
use crate::container;
use crate::error;
use crate::error::{Code, Error, ErrorSpec, Result, Status, StatusSpec};
use crate::inspect;
use crate::inspect::{ContainerRecord, ProcessState};
use crate::snapshot_util::{SnapshotCall, SnapshotCallSpec};
use crate::text;
use crate::time::{Duration, NANOS_PER_SEC};
use crate::types::{TaskInfo, TaskStatus};
use crate::util;
use crate::util::PollVerdict;

verus! {

pub const SIGTERM: u32 = 15;

pub const SIGKILL: u32 = 9;

/// Milliseconds between two polls of a task.
pub const POLL_INTERVAL_MS: u64 = 100;

/// Milliseconds between two attempts to delete a task.
pub const DELETE_RETRY_MS: u64 = 50;

/// The longest time, in seconds, that a task gets to react to SIGTERM.
pub const MAX_GRACE_SECS: u64 = 5;

#[derive(Debug, PartialEq, Eq)]
pub struct TaskId {
    container_id: String,
    pid: u32,
}

#[verifier::ext_equal]
pub struct TaskIdSpec {
    pub container_id: Seq<char>,
    pub pid: u32,
}

impl View for TaskId {
    type V = TaskIdSpec;

    closed spec fn view(&self) -> TaskIdSpec {
        TaskIdSpec { container_id: self.container_id@, pid: self.pid }
    }
}

impl Clone for TaskId {
    fn clone(&self) -> (copy: Self)
        ensures
            copy@ == self@,
    {
        TaskId { container_id: self.container_id.clone(), pid: self.pid }
    }
}

impl TaskId {
    pub fn container_id(&self) -> (id: &str)
        ensures
            id@ == self@.container_id,
    {
        self.container_id.as_str()
    }

    pub fn pid(&self) -> (pid: u32)
        ensures
            pid == self@.pid,
    {
        self.pid
    }
}

/// A mount of a task's root file system.
#[derive(Debug)]
pub struct RootfsMount {
    pub typ: String,
    pub source: String,
    pub target: String,
    pub options: Vec<String>,
}

/// A request to create a task.
#[derive(Debug)]
pub struct CreateTaskRequest {
    pub container_id: String,
    pub rootfs: Vec<RootfsMount>,
    pub stdin: String,
    pub stdout: String,
    pub stderr: String,
    pub terminal: bool,
}

pub fn build_create_task_request(
    container_id: &str,
    rootfs: Vec<RootfsMount>,
    stdout: &str,
    stderr: &str,
) -> (req: CreateTaskRequest)
    ensures
        req.container_id@ == container_id@,
        req.rootfs == rootfs,
        req.stdin@ == Seq::<char>::empty(),
        req.stdout@ == stdout@,
        req.stderr@ == stderr@,
        !req.terminal,
{
    let stdin = String::new();
    assert(stdin@ =~= Seq::<char>::empty());
    CreateTaskRequest {
        container_id: String::from_str(container_id),
        rootfs,
        stdin,
        stdout: String::from_str(stdout),
        stderr: String::from_str(stderr),
        terminal: false,
    }
}

/// Where starting a container stands.
#[derive(Debug, Clone, Copy, PartialEq, Eq, Structural)]
pub enum StartPhase {
    /// Look the container up.
    Fetch,
    /// Ask for the mounts of its snapshot.
    Mounts,
    /// Make the log files: they must exist before the task is created, so that
    /// the shim can open them.
    PrepareLogs,
    Create,
    Start,
    /// Over; after a start that went well, the start time is recorded.
    Finished,
}

/// What came of a phase of starting.
#[derive(Debug)]
pub enum StartEvent {
    Done,
    /// The task was created.
    Created { pid: u32 },
    /// Containerd refused.
    Refused(Status),
    Failed(Error),
}

#[verifier::ext_equal]
pub enum StartEventSpec {
    Done,
    Created { pid: u32 },
    Refused(StatusSpec),
    Failed(ErrorSpec),
}

impl View for StartEvent {
    type V = StartEventSpec;

    open spec fn view(&self) -> StartEventSpec {
        match *self {
            StartEvent::Done => StartEventSpec::Done,
            StartEvent::Created { pid } => StartEventSpec::Created { pid },
            StartEvent::Refused(s) => StartEventSpec::Refused(s@),
            StartEvent::Failed(e) => StartEventSpec::Failed(e@),
        }
    }
}

impl StartEventSpec {
    /// The error of a phase, where a refusal is reported as the failure of
    /// `op`.
    pub open spec fn error(self, op: Seq<char>) -> ErrorSpec {
        match self {
            StartEventSpec::Failed(e) => e,
            StartEventSpec::Refused(s) => ErrorSpec::Containerd { op, source: s },
            _ => ErrorSpec::NotImplemented,
        }
    }
}

impl StartEvent {
    fn into_error(self, op: &'static str) -> (e: Error)
        ensures
            e@ == self@.error(op@),
    {
        match self {
            StartEvent::Failed(e) => e,
            StartEvent::Refused(s) => util::into_crate_error(s, op),
            _ => Error::NotImplemented,
        }
    }
}

/// A call to containerd that a start takes, beside the one that creates the
/// task.
#[derive(Debug)]
pub enum StartCall {
    /// Fetch the record of the container.
    GetContainer { id: String },
    /// Ask for the mounts of a writable layer.
    Mounts { snapshotter: String, key: String },
    /// Start a process of the task; the empty exec id names the primary one.
    Start { container_id: String, exec_id: String },
}

#[verifier::ext_equal]
pub enum StartCallSpec {
    GetContainer { id: Seq<char> },
    Mounts { snapshotter: Seq<char>, key: Seq<char> },
    Start { container_id: Seq<char>, exec_id: Seq<char> },
}

impl View for StartCall {
    type V = StartCallSpec;

    open spec fn view(&self) -> StartCallSpec {
        match *self {
            StartCall::GetContainer { id } => StartCallSpec::GetContainer { id: id@ },
            StartCall::Mounts { snapshotter, key } => StartCallSpec::Mounts {
                snapshotter: snapshotter@,
                key: key@,
            },
            StartCall::Start { container_id, exec_id } => StartCallSpec::Start {
                container_id: container_id@,
                exec_id: exec_id@,
            },
        }
    }
}

/// An optional call, by what it says.
pub open spec fn opt_start_call(call: Option<StartCall>) -> Option<StartCallSpec> {
    match call {
        Some(c) => Some(c@),
        None => None,
    }
}

/// The snapshotter and the writable layer that the record of a container names.
pub fn mounts_target(record: &ContainerRecord) -> (t: (String, String))
    ensures
        t.0@ == record.snapshotter@,
        t.1@ == record.snapshot_key@,
{
    (record.snapshotter.clone(), record.snapshot_key.clone())
}

/// An ongoing start of a container.
#[derive(Debug)]
pub struct StartOp {
    pub container_id: String,
    pub pid: u32,
    pub phase: StartPhase,
    /// What the start fails with, once it failed.
    pub error: Option<Error>,
}

#[verifier::ext_equal]
pub struct StartOpSpec {
    pub container_id: Seq<char>,
    pub pid: u32,
    pub phase: StartPhase,
    pub error: Option<ErrorSpec>,
}

impl View for StartOp {
    type V = StartOpSpec;

    open spec fn view(&self) -> StartOpSpec {
        StartOpSpec {
            container_id: self.container_id@,
            pid: self.pid,
            phase: self.phase,
            error: error::opt_error(self.error),
        }
    }
}

impl StartOpSpec {
    pub open spec fn at(self, phase: StartPhase) -> StartOpSpec {
        StartOpSpec { phase, ..self }
    }

    pub open spec fn failed(self, e: ErrorSpec) -> StartOpSpec {
        StartOpSpec { phase: StartPhase::Finished, error: Some(e), ..self }
    }

    /// What follows what came of the current phase.
    pub open spec fn next(self, ev: StartEventSpec) -> StartOpSpec {
        match self.phase {
            StartPhase::Fetch => match ev {
                StartEventSpec::Done => self.at(StartPhase::Mounts),
                StartEventSpec::Refused(s) => self.failed(
                    inspect::lookup_error("get_container"@, self.container_id, s),
                ),
                _ => self.failed(ev.error("get_container"@)),
            },
            StartPhase::Mounts => match ev {
                StartEventSpec::Done => self.at(StartPhase::PrepareLogs),
                _ => self.failed(ev.error("snapshot_mounts"@)),
            },
            StartPhase::PrepareLogs => match ev {
                StartEventSpec::Done => self.at(StartPhase::Create),
                _ => self.failed(ev.error("prepare_log_files"@)),
            },
            StartPhase::Create => match ev {
                StartEventSpec::Created { pid } => StartOpSpec {
                    pid,
                    ..self.at(StartPhase::Start)
                },
                StartEventSpec::Refused(s) => self.failed(
                    if s.code == Code::AlreadyExists {
                        ErrorSpec::TaskAlreadyExists(self.container_id)
                    } else {
                        ev.error("create_task"@)
                    },
                ),
                _ => self.failed(ev.error("create_task"@)),
            },
            StartPhase::Start => match ev {
                StartEventSpec::Done => self.at(StartPhase::Finished),
                _ => self.failed(ev.error("start_task"@)),
            },
            StartPhase::Finished => self,
        }
    }

    /// The call that the current phase takes, if the record of the container
    /// names `snapshotter` and the writable layer `key`.
    pub open spec fn call(self, snapshotter: Seq<char>, key: Seq<char>) -> Option<StartCallSpec> {
        match self.phase {
            StartPhase::Fetch => Some(StartCallSpec::GetContainer { id: self.container_id }),
            StartPhase::Mounts => Some(StartCallSpec::Mounts { snapshotter, key }),
            StartPhase::Start => Some(
                StartCallSpec::Start { container_id: self.container_id, exec_id: Seq::empty() },
            ),
            _ => None,
        }
    }

    /// The start after all of `evs`.
    pub open spec fn run(self, evs: Seq<StartEventSpec>) -> StartOpSpec
        decreases evs.len(),
    {
        if evs.len() == 0 {
            self
        } else {
            self.run(evs.drop_last()).next(evs.last())
        }
    }
}

impl StartOp {
    pub fn begin(container_id: &str) -> (op: Self)
        ensures
            op@ == (StartOpSpec {
                container_id: container_id@,
                pid: 0,
                phase: StartPhase::Fetch,
                error: None,
            }),
    {
        StartOp {
            container_id: String::from_str(container_id),
            pid: 0,
            phase: StartPhase::Fetch,
            error: None,
        }
    }

    fn fail(&mut self, e: Error)
        ensures
            final(self)@ == old(self)@.failed(e@),
    {
        self.phase = StartPhase::Finished;
        self.error = Some(e);
    }

    /// Takes in what came of the current phase.
    pub fn advance(&mut self, ev: StartEvent)
        ensures
            final(self)@ == old(self)@.next(ev@),
    {
        match self.phase {
            StartPhase::Fetch => match ev {
                StartEvent::Done => {
                    self.phase = StartPhase::Mounts;
                },
                StartEvent::Refused(s) => {
                    if s.code == Code::NotFound {
                        self.fail(Error::ContainerNotFound(self.container_id.clone()));
                    } else {
                        self.fail(util::into_crate_error(s, "get_container"));
                    }
                },
                _ => {
                    self.fail(ev.into_error("get_container"));
                },
            },
            StartPhase::Mounts => match ev {
                StartEvent::Done => {
                    self.phase = StartPhase::PrepareLogs;
                },
                _ => {
                    self.fail(ev.into_error("snapshot_mounts"));
                },
            },
            StartPhase::PrepareLogs => match ev {
                StartEvent::Done => {
                    self.phase = StartPhase::Create;
                },
                _ => {
                    self.fail(ev.into_error("prepare_log_files"));
                },
            },
            StartPhase::Create => match ev {
                StartEvent::Created { pid } => {
                    self.pid = pid;
                    self.phase = StartPhase::Start;
                },
                StartEvent::Refused(s) => {
                    if s.code == Code::AlreadyExists {
                        self.fail(Error::TaskAlreadyExists(self.container_id.clone()));
                    } else {
                        self.fail(util::into_crate_error(s, "create_task"));
                    }
                },
                _ => {
                    self.fail(ev.into_error("create_task"));
                },
            },
            StartPhase::Start => match ev {
                StartEvent::Done => {
                    self.phase = StartPhase::Finished;
                },
                _ => {
                    self.fail(ev.into_error("start_task"));
                },
            },
            StartPhase::Finished => {},
        }
    }

    /// The call that the current phase takes, if the record of the container
    /// names `snapshotter` and the writable layer `key`. The request that
    /// creates the task is built by [`build_create_task_request`].
    pub fn call(&self, snapshotter: &str, key: &str) -> (call: Option<StartCall>)
        ensures
            opt_start_call(call) == self@.call(snapshotter@, key@),
    {
        match self.phase {
            StartPhase::Fetch => Some(StartCall::GetContainer { id: self.container_id.clone() }),
            StartPhase::Mounts => Some(
                StartCall::Mounts {
                    snapshotter: String::from_str(snapshotter),
                    key: String::from_str(key),
                },
            ),
            StartPhase::Start => {
                let exec_id = String::new();
                assert(exec_id@ =~= Seq::<char>::empty());
                Some(StartCall::Start { container_id: self.container_id.clone(), exec_id })
            },
            _ => None,
        }
    }

    /// The result of a finished start.
    pub fn outcome(self) -> (out: Result<TaskId>)
        ensures
            match out {
                Ok(id) => self@.error is None && id@ == (TaskIdSpec {
                    container_id: self@.container_id,
                    pid: self@.pid,
                }),
                Err(e) => self@.error == Some(e@),
            },
    {
        match self.error {
            Some(e) => Err(e),
            None => Ok(TaskId { container_id: self.container_id, pid: self.pid }),
        }
    }
}

/// A start that has not failed has gone through the phases before its own, in
/// order.
proof fn lemma_start_run(begin: StartOpSpec, evs: Seq<StartEventSpec>)
    requires
        begin.phase == StartPhase::Fetch,
        begin.error is None,
    ensures
        ({
            let op = begin.run(evs);
            &&& op.container_id == begin.container_id
            &&& op.error is Some ==> op.phase == StartPhase::Finished
            &&& op.phase == StartPhase::Finished || evs.len() < 5
            &&& op.error is None ==> match op.phase {
                StartPhase::Fetch => evs.len() == 0,
                StartPhase::Mounts => evs.len() == 1 && evs[0] is Done,
                StartPhase::PrepareLogs => evs.len() == 2 && evs[0] is Done && evs[1] is Done,
                StartPhase::Create => evs.len() == 3 && evs[0] is Done && evs[1] is Done
                    && evs[2] is Done,
                StartPhase::Start => evs.len() == 4 && evs[0] is Done && evs[1] is Done
                    && evs[2] is Done && evs[3] == (StartEventSpec::Created { pid: op.pid }),
                StartPhase::Finished => evs.len() >= 5 && evs[0] is Done && evs[1] is Done
                    && evs[2] is Done && evs[3] == (StartEventSpec::Created { pid: op.pid })
                    && evs[4] is Done,
            }
        }),
    decreases evs.len(),
{
    if evs.len() > 0 {
        lemma_start_run(begin, evs.drop_last());
    }
}

/// A start asks for the record of its container, then for the mounts of the
/// layer that the record names, and starts the primary process of the
/// container's task once the task was created.
pub proof fn law_start_calls(
    begin: StartOpSpec,
    evs: Seq<StartEventSpec>,
    snapshotter: Seq<char>,
    layer: Seq<char>,
)
    requires
        begin.phase == StartPhase::Fetch,
        begin.error is None,
    ensures
        match begin.run(evs).call(snapshotter, layer) {
            Some(StartCallSpec::GetContainer { id }) => evs.len() == 0 && id == begin.container_id,
            Some(StartCallSpec::Mounts { snapshotter: s, key }) => s == snapshotter && key == layer
                && evs.len() == 1 && evs[0] is Done,
            Some(StartCallSpec::Start { container_id, exec_id }) => {
                &&& container_id == begin.container_id
                &&& exec_id.len() == 0
                &&& evs.len() == 4 && evs[3] is Created
            },
            None => true,
        },
{
    lemma_start_run(begin, evs);
}

/// A start ends without an error exactly if, one after the other, the container
/// was found, its mounts were given, its log files were made, its task was
/// created and then started; the pid is that of the created task.
pub proof fn law_start_success(begin: StartOpSpec, evs: Seq<StartEventSpec>)
    requires
        begin.phase == StartPhase::Fetch,
        begin.error is None,
        evs.len() >= 5,
    ensures
        begin.run(evs).phase == StartPhase::Finished,
        begin.run(evs).error is None <==> evs[0] is Done && evs[1] is Done && evs[2] is Done
            && evs[3] is Created && evs[4] is Done,
        begin.run(evs).error is None ==> evs[3] == (StartEventSpec::Created {
            pid: begin.run(evs).pid,
        }),
    decreases evs.len(),
{
    lemma_start_run(begin, evs);
    if evs[0] is Done && evs[1] is Done && evs[2] is Done && evs[3] is Created && evs[4] is Done {
        if evs.len() > 5 {
            law_start_success(begin, evs.drop_last());
        } else {
            let e4 = evs.drop_last();
            let e3 = e4.drop_last();
            let e2 = e3.drop_last();
            let e1 = e2.drop_last();
            let e0 = e1.drop_last();
            assert(begin.run(e0) == begin);
            assert(begin.run(e1) == begin.next(evs[0]));
            assert(begin.run(e2) == begin.run(e1).next(evs[1]));
            assert(begin.run(e3) == begin.run(e2).next(evs[2]));
            assert(begin.run(e4) == begin.run(e3).next(evs[3]));
            assert(begin.run(evs) == begin.run(e4).next(evs[4]));
        }
    }
}

/// A start whose step goes wrong is over and fails with what went wrong: an
/// error as it is, a refusal as containerd gave it, but as a missing container
/// if there is no record, and as an existing task if the task is there already.
pub proof fn law_start_failure(op: StartOpSpec, e: ErrorSpec, s: StatusSpec)
    requires
        op.phase != StartPhase::Finished,
    ensures
        ({
            let failed = op.next(StartEventSpec::Failed(e));
            let refused = op.next(StartEventSpec::Refused(s));
            let missing = op.phase == StartPhase::Fetch && s.code == Code::NotFound;
            let taken = op.phase == StartPhase::Create && s.code == Code::AlreadyExists;
            &&& failed.phase == StartPhase::Finished && failed.error == Some(e)
            &&& refused.phase == StartPhase::Finished
            &&& missing ==> refused.error == Some(ErrorSpec::ContainerNotFound(op.container_id))
            &&& taken ==> refused.error == Some(ErrorSpec::TaskAlreadyExists(op.container_id))
            &&& !missing && !taken ==> (refused.error matches Some(
                ErrorSpec::Containerd { source, .. },
            ) && source == s)
        }),
{
}

/// A start that is at its first, second or last step makes a call, to fetch the
/// record, to get the mounts of the layer, and to start the primary process.
pub proof fn law_start_call(op: StartOpSpec, snapshotter: Seq<char>, layer: Seq<char>)
    ensures
        op.phase == StartPhase::Fetch ==> op.call(snapshotter, layer) == Some(
            StartCallSpec::GetContainer { id: op.container_id },
        ),
        op.phase == StartPhase::Mounts ==> op.call(snapshotter, layer) == Some(
            StartCallSpec::Mounts { snapshotter, key: layer },
        ),
        op.phase == StartPhase::Start ==> op.call(snapshotter, layer) == Some(
            StartCallSpec::Start { container_id: op.container_id, exec_id: Seq::<char>::empty() },
        ),
{
}

/// A signal to every process of a task.
#[derive(Debug)]
pub struct KillRequest {
    pub container_id: String,
    pub exec_id: String,
    pub signal: u32,
    pub all: bool,
}

pub fn kill_request(container_id: &str, signal: u32) -> (req: KillRequest)
    ensures
        req.container_id@ == container_id@,
        req.exec_id@ == Seq::<char>::empty(),
        req.signal == signal,
        req.all,
{
    let exec_id = String::new();
    assert(exec_id@ =~= Seq::<char>::empty());
    KillRequest { container_id: String::from_str(container_id), exec_id, signal, all: true }
}

/// The outcome of sending SIGTERM. Idempotent on already-stopped tasks.
pub fn stop_task(container_id: &str, reply: core::result::Result<(), Status>) -> (out: Result<()>)
    ensures
        match reply {
            Ok(_) => out is Ok,
            Err(status) => if status.code == Code::NotFound {
                out matches Err(e) && e@ == ErrorSpec::TaskNotFound(container_id@)
            } else if status.code == Code::FailedPrecondition {
                out is Ok
            } else {
                out matches Err(e) && e@ == (ErrorSpec::Containerd {
                    op: "kill_task"@,
                    source: status@,
                })
            },
        },
{
    match reply {
        Ok(_) => Ok(()),
        Err(status) => {
            if status.code == Code::NotFound {
                Err(Error::TaskNotFound(String::from_str(container_id)))
            } else if status.code == Code::FailedPrecondition {
                Ok(())
            } else {
                Err(util::into_crate_error(status, "kill_task"))
            }
        },
    }
}

/// The outcome of sending another signal. Idempotent on missing or stopped
/// tasks.
pub fn kill_task(reply: core::result::Result<(), Status>) -> (out: Result<()>)
    ensures
        match reply {
            Ok(_) => out is Ok,
            Err(status) => if status.code == Code::NotFound || status.code
                == Code::FailedPrecondition {
                out is Ok
            } else {
                out matches Err(e) && e@ == (ErrorSpec::Containerd {
                    op: "kill_task"@,
                    source: status@,
                })
            },
        },
{
    match reply {
        Ok(_) => Ok(()),
        Err(status) => {
            if status.code == Code::NotFound || status.code == Code::FailedPrecondition {
                Ok(())
            } else {
                Err(util::into_crate_error(status, "kill_task"))
            }
        },
    }
}

/// Whether a task runs.
pub fn is_task_running(task: &Option<TaskInfo>) -> (running: bool)
    ensures
        running == (*task matches Some(t) && t.status == TaskStatus::Running),
{
    match task {
        Some(t) => t.status == TaskStatus::Running,
        None => false,
    }
}

/// What inspecting a container showed of its task.
pub type Seen = Result<Option<TaskInfo>>;

/// What a look at a container and its task finds, from the replies to the two
/// look-ups. Where inspecting shows no task, a task that is not there is told
/// apart here from a look-up that failed. Without a record no task is looked
/// up.
pub open spec fn look(
    id: Seq<char>,
    record: core::result::Result<Option<ContainerRecord>, Status>,
    task: core::result::Result<Option<ProcessState>, Status>,
) -> core::result::Result<Option<TaskInfo>, ErrorSpec> {
    match record {
        Err(status) => Err(inspect::lookup_error("get_container"@, id, status@)),
        Ok(None) => Err(ErrorSpec::ContainerNotFound(id)),
        Ok(Some(r)) => if !util::valid_identifier(text::utf8(r.id@)) {
            Err(ErrorSpec::InvalidArgument(util::identifier_complaint(r.id@)))
        } else {
            match task {
                Ok(Some(p)) => Ok(Some(inspect::task_info(p))),
                Ok(None) => Ok(None),
                Err(status) => if status.code == Code::NotFound {
                    Ok(None)
                } else {
                    Err(ErrorSpec::Containerd { op: "get_task"@, source: status@ })
                },
            }
        },
    }
}

/// Looks at a container and its task.
pub fn task_seen(
    container_id: &str,
    record: core::result::Result<Option<ContainerRecord>, Status>,
    task: core::result::Result<Option<ProcessState>, Status>,
) -> (seen: Seen)
    ensures
        match seen {
            Ok(t) => look(container_id@, record, task) == Ok::<Option<TaskInfo>, ErrorSpec>(t),
            Err(e) => look(container_id@, record, task) == Err::<Option<TaskInfo>, ErrorSpec>(e@),
        },
{
    let found = match inspect::container_found(container_id, record) {
        Ok(r) => r,
        Err(e) => {
            return Err(e);
        },
    };
    match util::validate_identifier(found.id.as_str()) {
        Ok(_) => match task {
            Ok(Some(p)) => Ok(Some(inspect::process_info(&p))),
            Ok(None) => Ok(None),
            Err(status) => if status.code == Code::NotFound {
                Ok(None)
            } else {
                Err(util::into_crate_error(status, "get_task"))
            },
        },
        Err(e) => Err(e),
    }
}

/// Whether a task is seen to have stopped: no task counts as stopped (or never
/// started), and so does a missing container.
pub open spec fn seen_stopped(seen: Seen) -> bool {
    match seen {
        Ok(None) => true,
        Ok(Some(t)) => t.status == TaskStatus::Stopped,
        Err(e) => e is ContainerNotFound,
    }
}

pub fn task_stopped(seen: &Seen) -> (stopped: bool)
    ensures
        stopped == seen_stopped(*seen),
{
    match seen {
        Ok(None) => true,
        Ok(Some(t)) => t.status == TaskStatus::Stopped,
        Err(e) => match e {
            Error::ContainerNotFound(_) => true,
            _ => false,
        },
    }
}

fn timeout_message(head: &str, container_id: &str, middle: &str, timeout: Duration) -> (s: String)
    ensures
        s@ == head@ + container_id@ + middle@ + timeout.shown(),
{
    let mut s = String::from_str(head);
    s.append(container_id);
    s.append(middle);
    s.append(timeout.show().as_str());
    s
}

/// One round of waiting for a task to stop: the error if the time is up, else
/// whether it stopped. `seen` is looked at only before the deadline.
pub fn wait_for_task_stop(
    container_id: &str,
    elapsed: Duration,
    timeout: Duration,
    seen: &Seen,
) -> (out: Result<bool>)
    ensures
        match out {
            Ok(stopped) => elapsed.nanos() <= timeout.nanos() && stopped == seen_stopped(*seen),
            Err(e) => elapsed.nanos() > timeout.nanos() && e@ == ErrorSpec::Timeout(
                "task "@ + container_id@ + " did not stop within "@ + timeout.shown(),
            ),
        },
{
    if elapsed.exceeds(&timeout) {
        return Err(
            Error::Timeout(
                timeout_message("task ", container_id, " did not stop within ", timeout),
            ),
        );
    }
    Ok(task_stopped(seen))
}

/// What waiting for an exit makes of what it saw: an exit code, an error, or
/// nothing yet.
pub open spec fn exit_seen(id: Seq<char>, seen: Seen) -> Option<
    core::result::Result<i32, ErrorSpec>,
> {
    match seen {
        Ok(Some(t)) => if t.status == TaskStatus::Stopped {
            match t.exit_code {
                Some(code) => Some(Ok(code)),
                None => Some(
                    Err(
                        ErrorSpec::TaskExited(
                            "task "@ + id + " stopped but no exit code reported"@,
                        ),
                    ),
                ),
            }
        } else {
            None
        },
        Ok(None) => Some(Err(ErrorSpec::TaskNotFound(id))),
        Err(e) => if e is ContainerNotFound {
            Some(Err(ErrorSpec::ContainerNotFound(id)))
        } else {
            None
        },
    }
}

/// One round of waiting for a task to exit. It fails if the container or the
/// task is missing, or the time is up; other failures to look are transient.
/// The exit code is taken from the same look that first saw the task stopped.
/// `seen` is what [`task_seen`] makes of the replies.
pub fn wait_for_exit(
    container_id: &str,
    elapsed: Duration,
    timeout: Duration,
    seen: &Seen,
) -> (out: Option<Result<i32>>)
    ensures
        elapsed.nanos() > timeout.nanos() ==> (out matches Some(Err(e)) && e@ == ErrorSpec::Timeout(
            "task "@ + container_id@ + " did not exit within "@ + timeout.shown(),
        )),
        elapsed.nanos() <= timeout.nanos() ==> match out {
            Some(Ok(code)) => exit_seen(container_id@, *seen) == Some(Ok::<i32, ErrorSpec>(code)),
            Some(Err(e)) => exit_seen(container_id@, *seen) == Some(Err::<i32, ErrorSpec>(e@)),
            None => exit_seen(container_id@, *seen) is None,
        },
{
    if elapsed.exceeds(&timeout) {
        return Some(
            Err(
                Error::Timeout(
                    timeout_message("task ", container_id, " did not exit within ", timeout),
                ),
            ),
        );
    }
    match seen {
        Ok(Some(t)) => {
            if t.status == TaskStatus::Stopped {
                match t.exit_code {
                    Some(code) => Some(Ok(code)),
                    None => {
                        let mut what = String::from_str("task ");
                        what.append(container_id);
                        what.append(" stopped but no exit code reported");
                        Some(Err(Error::TaskExited(what)))
                    },
                }
            } else {
                None
            }
        },
        Ok(None) => Some(Err(Error::TaskNotFound(String::from_str(container_id)))),
        Err(e) => match e {
            Error::ContainerNotFound(_) => Some(
                Err(Error::ContainerNotFound(String::from_str(container_id))),
            ),
            _ => None,
        },
    }
}

/// While it is in time, a wait for an exit fails with a missing task only where
/// there is none: a task look-up that failed for another reason is made again.
pub proof fn law_failed_look_is_repeated(
    id: Seq<char>,
    record: ContainerRecord,
    status: Status,
    seen: Seen,
)
    requires
        status.code != Code::NotFound,
        match seen {
            Ok(t) => look(id, Ok(Some(record)), Err(status)) == Ok::<Option<TaskInfo>, ErrorSpec>(t),
            Err(e) => look(id, Ok(Some(record)), Err(status)) == Err::<Option<TaskInfo>, ErrorSpec>(
                e@,
            ),
        },
    ensures
        exit_seen(id, seen) is None,
{
}

/// A look fails with a missing container exactly if there is no record. Where
/// there is one with a proper id, the task is what the task look-up found, and
/// there is none exactly if that found none.
pub proof fn law_look(
    id: Seq<char>,
    record: ContainerRecord,
    process: ProcessState,
    status: Status,
    task: core::result::Result<Option<ProcessState>, Status>,
)
    ensures
        look(id, Ok(None), task) == Err::<Option<TaskInfo>, ErrorSpec>(
            ErrorSpec::ContainerNotFound(id),
        ),
        look(id, Err(status), task) == Err::<Option<TaskInfo>, ErrorSpec>(
            if status.code == Code::NotFound {
                ErrorSpec::ContainerNotFound(id)
            } else {
                ErrorSpec::Containerd { op: "get_container"@, source: status@ }
            },
        ),
        util::valid_identifier(text::utf8(record.id@)) ==> {
            &&& look(id, Ok(Some(record)), Ok(None)) == Ok::<Option<TaskInfo>, ErrorSpec>(None)
            &&& look(id, Ok(Some(record)), Ok(Some(process))) matches Ok(Some(t)) && t.pid
                == process.pid && t.status == TaskStatus::of(process.status)
            &&& status.code == Code::NotFound ==> look(id, Ok(Some(record)), Err(status)) == Ok::<
                Option<TaskInfo>,
                ErrorSpec,
            >(None)
            &&& status.code != Code::NotFound ==> look(id, Ok(Some(record)), Err(status)) == Err::<
                Option<TaskInfo>,
                ErrorSpec,
            >(ErrorSpec::Containerd { op: "get_task"@, source: status@ })
        },
        !util::valid_identifier(text::utf8(record.id@)) ==> (look(
            id,
            Ok(Some(record)),
            task,
        ) matches Err(e) && e is InvalidArgument),
{
}

/// Waiting for a stop and waiting for an exit are over at the same looks: where
/// there is no running, paused or otherwise unfinished task, and a failed look
/// says nothing unless the container is missing. An exit code is reported
/// exactly if a stopped task carries one, and it is the one that it carries.
pub proof fn law_waits_agree(id: Seq<char>, seen: Seen, code: i32)
    ensures
        seen_stopped(seen) == (exit_seen(id, seen) is Some),
        exit_seen(id, seen) is None <==> match seen {
            Ok(task) => task is Some && task->0.status != TaskStatus::Stopped,
            Err(e) => !(e is ContainerNotFound),
        },
        exit_seen(id, seen) == Some(Ok::<i32, ErrorSpec>(code)) <==> match seen {
            Ok(Some(t)) => t.status == TaskStatus::Stopped && t.exit_code == Some(code),
            _ => false,
        },
        exit_seen(id, seen) == Some(Err::<i32, ErrorSpec>(ErrorSpec::TaskNotFound(id))) <==> seen
            == Ok::<Option<TaskInfo>, Error>(None),
        exit_seen(id, seen) == Some(Err::<i32, ErrorSpec>(ErrorSpec::ContainerNotFound(id))) <==> (
        seen matches Err(e) && e is ContainerNotFound),
        (exit_seen(id, seen) matches Some(Err(ErrorSpec::TaskExited(_)))) <==> match seen {
            Ok(Some(t)) => t.status == TaskStatus::Stopped && t.exit_code is None,
            _ => false,
        },
{
}

/// Whether another attempt to delete a task may go better: after transient
/// races (poststop hooks still running, momentary unavailability), but not
/// after definitive failures.
pub open spec fn retryable(e: ErrorSpec) -> bool {
    match e {
        ErrorSpec::Containerd { source, .. } => {
            ||| source.code == Code::FailedPrecondition
            ||| source.code == Code::Unavailable
            ||| source.code == Code::Internal
            ||| source.code == Code::Aborted
            ||| source.code == Code::DeadlineExceeded
        },
        _ => false,
    }
}

pub fn is_retryable_delete_error(err: &Error) -> (yes: bool)
    ensures
        yes == retryable(err@),
{
    match err {
        Error::Containerd { source, .. } => {
            source.code == Code::FailedPrecondition || source.code == Code::Unavailable
                || source.code == Code::Internal || source.code == Code::Aborted || source.code
                == Code::DeadlineExceeded
        },
        _ => false,
    }
}

/// Which refusals are worth another attempt to delete a task, whatever call was
/// refused; no other error is.
pub proof fn law_retryable(e: ErrorSpec, op: Seq<char>, source: StatusSpec)
    ensures
        retryable(ErrorSpec::Containerd { op, source }) <==> source.code
            == Code::FailedPrecondition || source.code == Code::Unavailable || source.code
            == Code::Internal || source.code == Code::Aborted || source.code
            == Code::DeadlineExceeded,
        retryable(e) ==> e is Containerd,
        source.code == Code::NotFound || source.code == Code::PermissionDenied || source.code
            == Code::InvalidArgument ==> !retryable(ErrorSpec::Containerd { op, source }),
{
}

/// What follows an attempt to delete a task: the outcome, or `None` to sleep
/// and try again. Only retryable errors are retried, and only before the
/// deadline.
pub fn retry_delete_task(
    attempt: Result<()>,
    elapsed: Duration,
    timeout: Duration,
) -> (out: Option<Result<()>>)
    ensures
        match attempt {
            Ok(_) => out matches Some(Ok(_)),
            Err(e) => if retryable(e@) && elapsed.nanos() < timeout.nanos() {
                out is None
            } else {
                out == Some(Err::<(), Error>(e))
            },
        },
{
    match attempt {
        Ok(_) => Some(Ok(())),
        Err(e) => {
            if !is_retryable_delete_error(&e) {
                return Some(Err(e));
            }
            if !timeout.exceeds(&elapsed) {
                return Some(Err(e));
            }
            None
        },
    }
}

fn ok_if_gone(op: &'static str, reply: core::result::Result<(), Status>) -> (out: Result<()>)
    ensures
        match reply {
            Ok(_) => out is Ok,
            Err(status) => match out {
                Ok(_) => status.code == Code::NotFound,
                Err(e) => status.code != Code::NotFound && e@ == (ErrorSpec::Containerd {
                    op: op@,
                    source: status@,
                }),
            },
        },
{
    match reply {
        Ok(_) => Ok(()),
        Err(status) => if status.code == Code::NotFound {
            Ok(())
        } else {
            Err(util::into_crate_error(status, op))
        },
    }
}

/// The outcome of deleting a task. Idempotent if the task is already gone. The
/// task's start time is forgotten exactly if this succeeds: after a real error
/// the state is uncertain.
pub fn delete_task(reply: core::result::Result<(), Status>) -> (out: Result<()>)
    ensures
        match reply {
            Ok(_) => out is Ok,
            Err(status) => match out {
                Ok(_) => status.code == Code::NotFound,
                Err(e) => status.code != Code::NotFound && e@ == (ErrorSpec::Containerd {
                    op: "delete_task"@,
                    source: status@,
                }),
            },
        },
{
    ok_if_gone("delete_task", reply)
}

/// The snapshotter of a container that is being removed; the default one if
/// its record is gone already, so that its snapshot can still be cleaned up.
fn cleanup_snapshotter(
    found: core::result::Result<Option<ContainerRecord>, Status>,
) -> (snapshotter: String)
    ensures
        snapshotter@ == match found {
            Ok(Some(record)) => record.snapshotter@,
            _ => DEFAULT_SNAPSHOTTER@,
        },
{
    match found {
        Ok(Some(record)) => record.snapshotter,
        _ => String::from_str(DEFAULT_SNAPSHOTTER),
    }
}

/// The call that removes the snapshot of a container that is being removed.
pub fn cleanup_call(
    container_id: &str,
    found: core::result::Result<Option<ContainerRecord>, Status>,
) -> (call: SnapshotCall)
    ensures
        call@ == (SnapshotCallSpec::Remove {
            snapshotter: match found {
                Ok(Some(record)) => record.snapshotter@,
                _ => DEFAULT_SNAPSHOTTER@,
            },
            key: container::snapshot_key(container_id@),
        }),
{
    let snapshotter = cleanup_snapshotter(found);
    let key = container::snapshot_key_for(container_id);
    SnapshotCall::remove(snapshotter.as_str(), key.as_str())
}

/// The outcome of deleting a container record. Idempotent.
pub fn record_deleted(reply: core::result::Result<(), Status>) -> (out: Result<()>)
    ensures
        match reply {
            Ok(_) => out is Ok,
            Err(status) => match out {
                Ok(_) => status.code == Code::NotFound,
                Err(e) => status.code != Code::NotFound && e@ == (ErrorSpec::Containerd {
                    op: "delete_container"@,
                    source: status@,
                }),
            },
        },
{
    ok_if_gone("delete_container", reply)
}

/// Where removing a container stands. Every phase is reached, whatever came of
/// the ones before: the record, the snapshot and the logs each go as far as
/// they can.
#[derive(Debug, Clone, Copy, PartialEq, Eq, Structural)]
pub enum RemovePhase {
    /// Look the record up for its snapshotter.
    Fetch,
    DeleteRecord,
    RemoveSnapshot,
    CleanLogs,
    Done,
}

pub open spec fn remove_next(phase: RemovePhase) -> RemovePhase {
    match phase {
        RemovePhase::Fetch => RemovePhase::DeleteRecord,
        RemovePhase::DeleteRecord => RemovePhase::RemoveSnapshot,
        RemovePhase::RemoveSnapshot => RemovePhase::CleanLogs,
        _ => RemovePhase::Done,
    }
}

/// Decides how removing a container goes on.
pub fn remove_step(phase: RemovePhase) -> (next: RemovePhase)
    ensures
        next == remove_next(phase),
{
    match phase {
        RemovePhase::Fetch => RemovePhase::DeleteRecord,
        RemovePhase::DeleteRecord => RemovePhase::RemoveSnapshot,
        RemovePhase::RemoveSnapshot => RemovePhase::CleanLogs,
        _ => RemovePhase::Done,
    }
}

/// Removing a container deletes its record, then its snapshot, then its logs,
/// and leaves none of them out.
pub proof fn law_remove_order()
    ensures
        remove_next(RemovePhase::Fetch) == RemovePhase::DeleteRecord,
        remove_next(remove_next(RemovePhase::Fetch)) == RemovePhase::RemoveSnapshot,
        remove_next(remove_next(remove_next(RemovePhase::Fetch))) == RemovePhase::CleanLogs,
        remove_next(remove_next(remove_next(remove_next(RemovePhase::Fetch))))
            == RemovePhase::Done,
        remove_next(RemovePhase::Done) == RemovePhase::Done,
{
}

/// How the time for stopping a container is split: the grace after SIGTERM is
/// at most 5 s and never more than half, so that SIGKILL has time to work.
pub open spec fn grace(timeout: nat) -> nat {
    if timeout / 2 <= MAX_GRACE_SECS * NANOS_PER_SEC {
        timeout / 2
    } else {
        (MAX_GRACE_SECS * NANOS_PER_SEC) as nat
    }
}

/// The grace after SIGTERM and the time that is left after it.
pub fn stop_budget(timeout: Duration) -> (out: (Duration, Duration))
    ensures
        out.0.nanos() == grace(timeout.nanos()),
        out.1.nanos() == timeout.nanos() - grace(timeout.nanos()),
{
    let sigterm_grace = timeout.half().min(&Duration::from_secs(MAX_GRACE_SECS));
    let remaining = timeout.saturating_sub(&sigterm_grace);
    (sigterm_grace, remaining)
}

/// The two waits of a stop never take longer than the whole, and the second
/// gets at least half.
pub proof fn law_stop_budget(timeout: nat)
    ensures
        grace(timeout) <= MAX_GRACE_SECS * NANOS_PER_SEC,
        2 * grace(timeout) <= timeout,
{
}

/// The grace is as long as those two bounds let it be: half of a timeout of at
/// most ten seconds, and five seconds of a longer one.
pub proof fn law_grace(timeout: nat)
    ensures
        timeout <= 10_000_000_000 ==> timeout - 1 <= 2 * grace(timeout) <= timeout,
        timeout >= 10_000_000_000 ==> grace(timeout) == 5_000_000_000,
{
}

/// Where stopping a container stands.
#[derive(Debug, Clone, Copy, PartialEq, Eq, Structural)]
pub enum StopPhase {
    /// Send SIGTERM.
    Terminate,
    /// Wait for the task to stop, for the grace period.
    AwaitGrace,
    /// Look whether it still runs.
    Check,
    /// Send SIGKILL.
    Kill,
    /// Wait for the task to stop, for what is left of the time.
    AwaitKill,
    /// Stopped.
    Done,
    /// The task outlived SIGKILL.
    Failed,
}

/// The phase after `phase`. For `Check`, `ok` says whether the task runs no
/// more; for the others, whether the step went well.
pub open spec fn stop_next(phase: StopPhase, ok: bool) -> StopPhase {
    match phase {
        StopPhase::Terminate => StopPhase::AwaitGrace,
        StopPhase::AwaitGrace => StopPhase::Check,
        StopPhase::Check => if ok {
            StopPhase::Done
        } else {
            StopPhase::Kill
        },
        StopPhase::Kill => StopPhase::AwaitKill,
        StopPhase::AwaitKill => if ok {
            StopPhase::Done
        } else {
            StopPhase::Failed
        },
        _ => phase,
    }
}

/// The signal that a phase of stopping sends.
pub fn stop_signal(phase: StopPhase) -> (signal: Option<u32>)
    ensures
        signal == match phase {
            StopPhase::Terminate => Some(SIGTERM),
            StopPhase::Kill => Some(SIGKILL),
            _ => None,
        },
{
    match phase {
        StopPhase::Terminate => Some(SIGTERM),
        StopPhase::Kill => Some(SIGKILL),
        _ => None,
    }
}

/// Decides how stopping a container goes on: SIGTERM, wait, then SIGKILL. Only
/// the last wait can fail the stop.
pub fn stop_step(phase: StopPhase, ok: bool) -> (next: StopPhase)
    ensures
        next == stop_next(phase, ok),
{
    match phase {
        StopPhase::Terminate => StopPhase::AwaitGrace,
        StopPhase::AwaitGrace => StopPhase::Check,
        StopPhase::Check => if ok {
            StopPhase::Done
        } else {
            StopPhase::Kill
        },
        StopPhase::Kill => StopPhase::AwaitKill,
        StopPhase::AwaitKill => if ok {
            StopPhase::Done
        } else {
            StopPhase::Failed
        },
        _ => phase,
    }
}

/// SIGKILL is sent only to a task that was seen running after SIGTERM and the
/// grace period, and a stop fails only after SIGKILL.
pub proof fn law_kill_is_last_resort(phase: StopPhase, ok: bool)
    ensures
        stop_next(phase, ok) == StopPhase::Kill ==> phase == StopPhase::Kill || (phase
            == StopPhase::Check && !ok),
        stop_next(phase, ok) == StopPhase::Check ==> phase == StopPhase::AwaitGrace,
        stop_next(phase, ok) == StopPhase::Failed ==> phase == StopPhase::Failed || phase
            == StopPhase::AwaitKill,
{
}

/// After SIGTERM a task is given its grace and looked at, whether the signal was
/// delivered or the grace sufficed; a task that still runs gets SIGKILL, is
/// waited for, and decides the stop by whether it stops in time.
pub proof fn law_stop_steps(ok: bool)
    ensures
        stop_next(StopPhase::Terminate, ok) == StopPhase::AwaitGrace,
        stop_next(StopPhase::AwaitGrace, ok) == StopPhase::Check,
        stop_next(StopPhase::Check, true) == StopPhase::Done,
        stop_next(StopPhase::Check, false) == StopPhase::Kill,
        stop_next(StopPhase::Kill, ok) == StopPhase::AwaitKill,
        stop_next(StopPhase::AwaitKill, true) == StopPhase::Done,
        stop_next(StopPhase::AwaitKill, false) == StopPhase::Failed,
        stop_next(StopPhase::Done, ok) == StopPhase::Done,
        stop_next(StopPhase::Failed, ok) == StopPhase::Failed,
{
}

/// A stop is over after at most five steps, and fails only if the task was
/// seen running after the grace period and outlived SIGKILL.
pub proof fn law_stop_ends(
    terminated: bool,
    in_grace: bool,
    stopped: bool,
    killed: bool,
    in_time: bool,
)
    ensures
        ({
            let checked = stop_next(
                stop_next(stop_next(StopPhase::Terminate, terminated), in_grace),
                stopped,
            );
            let end = stop_next(stop_next(checked, killed), in_time);
            end == if stopped || in_time {
                StopPhase::Done
            } else {
                StopPhase::Failed
            }
        }),
{
}

/// Where deleting a container stands. Each waiting phase has the whole timeout
/// to itself: a shared deadline would blame later phases for earlier ones.
#[derive(Debug, Clone, Copy, PartialEq, Eq, Structural)]
pub enum DeletePhase {
    /// Stop the container; a failure is passed over.
    Stop,
    /// Delete the task, until that goes well.
    DeleteTask,
    /// Wait for the task record to go.
    AwaitTaskGone,
    /// Remove the container; a failure is passed over.
    Remove,
    /// Wait for the container record to go.
    AwaitRecordGone,
    Finished,
}

/// What a look at a container means while its task is to go: whether it is
/// gone, and whether to try deleting a stopped task again.
pub open spec fn task_gone(seen: Seen) -> (bool, bool) {
    match seen {
        Ok(Some(t)) => (false, t.status == TaskStatus::Stopped),
        _ => (true, false),
    }
}

pub fn probe_task_gone(seen: &Seen) -> (out: (bool, bool))
    ensures
        out == task_gone(*seen),
{
    match seen {
        Ok(Some(t)) => (false, t.status == TaskStatus::Stopped),
        _ => (true, false),
    }
}

/// What a look at a container means while it is to go: whether it is gone, and
/// whether to try removing it again.
pub open spec fn record_gone(seen: Seen) -> (bool, bool) {
    match seen {
        Ok(_) => (false, true),
        Err(e) => (e is ContainerNotFound, false),
    }
}

pub fn probe_record_gone(seen: &Seen) -> (out: (bool, bool))
    ensures
        out == record_gone(*seen),
{
    match seen {
        Ok(_) => (false, true),
        Err(e) => match e {
            Error::ContainerNotFound(_) => (true, false),
            _ => (false, false),
        },
    }
}

/// A task that is seen is not gone, and is deleted again only if it stopped. A
/// container that is seen is not gone, with or without a task, and is removed
/// again; one that a look failed on is gone only if it is missing.
pub proof fn law_gone(task: TaskInfo, e: Error)
    ensures
        task_gone(Ok(Some(task))) == (false, task.status == TaskStatus::Stopped),
        task_gone(Ok(None)) == (true, false),
        task_gone(Err(e)) == (true, false),
        record_gone(Ok(Some(task))) == (false, true),
        record_gone(Ok(None)) == (false, true),
        record_gone(Err(e)).0 == (e is ContainerNotFound),
        !record_gone(Err(e)).1,
{
}

/// What is said when a phase of deleting runs out of time.
pub open spec fn delete_complaint(
    phase: DeletePhase,
    id: Seq<char>,
    timeout: Duration,
) -> Seq<char> {
    match phase {
        DeletePhase::DeleteTask => "delete_container[phase=delete_task] timed out for "@ + id,
        DeletePhase::AwaitTaskGone =>
            "delete_container[phase=task_record_gone] timed out for "@ + id + " within "@
            + timeout.shown(),
        _ => "delete_container[phase=container_record_gone] timed out for "@ + id + " within "@
            + timeout.shown(),
    }
}

fn delete_timed_out(phase: DeletePhase, container_id: &str, timeout: Duration) -> (e: Error)
    ensures
        e@ == ErrorSpec::Timeout(delete_complaint(phase, container_id@, timeout)),
{
    match phase {
        DeletePhase::DeleteTask => {
            let mut s = String::from_str("delete_container[phase=delete_task] timed out for ");
            s.append(container_id);
            Error::Timeout(s)
        },
        DeletePhase::AwaitTaskGone => Error::Timeout(
            timeout_message(
                "delete_container[phase=task_record_gone] timed out for ",
                container_id,
                " within ",
                timeout,
            ),
        ),
        _ => Error::Timeout(
            timeout_message(
                "delete_container[phase=container_record_gone] timed out for ",
                container_id,
                " within ",
                timeout,
            ),
        ),
    }
}

/// One round of a phase of deleting: the time since the phase began, in
/// nanoseconds, and whether what was waited for holds.
pub struct Round {
    pub elapsed: nat,
    pub holds: bool,
}

/// An ongoing delete.
#[derive(Debug)]
pub struct DeleteOp {
    pub container_id: String,
    pub timeout: Duration,
    pub phase: DeletePhase,
    /// What the delete fails with, once it failed.
    pub error: Option<Error>,
}

#[verifier::ext_equal]
pub struct DeleteOpSpec {
    pub container_id: Seq<char>,
    pub timeout: Duration,
    pub phase: DeletePhase,
    pub error: Option<ErrorSpec>,
}

impl View for DeleteOp {
    type V = DeleteOpSpec;

    open spec fn view(&self) -> DeleteOpSpec {
        DeleteOpSpec {
            container_id: self.container_id@,
            timeout: self.timeout,
            phase: self.phase,
            error: error::opt_error(self.error),
        }
    }
}

impl DeleteOpSpec {
    pub open spec fn at(self, phase: DeletePhase) -> DeleteOpSpec {
        DeleteOpSpec { phase, ..self }
    }

    /// What follows a round of the current phase.
    pub open spec fn next(self, round: Round) -> DeleteOpSpec {
        match self.phase {
            DeletePhase::Stop => self.at(DeletePhase::DeleteTask),
            DeletePhase::Remove => self.at(DeletePhase::AwaitRecordGone),
            DeletePhase::Finished => self,
            _ => if round.elapsed > self.timeout.nanos() {
                DeleteOpSpec {
                    error: Some(
                        ErrorSpec::Timeout(
                            delete_complaint(self.phase, self.container_id, self.timeout),
                        ),
                    ),
                    ..self.at(DeletePhase::Finished)
                }
            } else if round.holds {
                self.at(
                    match self.phase {
                        DeletePhase::DeleteTask => DeletePhase::AwaitTaskGone,
                        DeletePhase::AwaitTaskGone => DeletePhase::Remove,
                        _ => DeletePhase::Finished,
                    },
                )
            } else {
                self
            },
        }
    }

    /// The delete after all of `rounds`.
    pub open spec fn run(self, rounds: Seq<Round>) -> DeleteOpSpec
        decreases rounds.len(),
    {
        if rounds.len() == 0 {
            self
        } else {
            self.run(rounds.drop_last()).next(rounds.last())
        }
    }

    /// Whether, in the course of `rounds`, what `phase` waits for came to hold
    /// in time.
    #[verifier::opaque]
    pub open spec fn held(self, rounds: Seq<Round>, phase: DeletePhase) -> bool {
        exists|i: int|
            0 <= i < rounds.len() && self.run(rounds.take(i)).phase == phase && (
            #[trigger] rounds[i]).holds && rounds[i].elapsed <= self.timeout.nanos()
    }
}

impl DeleteOp {
    pub fn begin(container_id: &str, timeout: Duration) -> (op: Self)
        ensures
            op@ == (DeleteOpSpec {
                container_id: container_id@,
                timeout,
                phase: DeletePhase::Stop,
                error: None,
            }),
    {
        DeleteOp {
            container_id: String::from_str(container_id),
            timeout,
            phase: DeletePhase::Stop,
            error: None,
        }
    }

    /// Takes in one round of the current phase: the time since the phase
    /// began, and whether what it waits for holds.
    pub fn advance(&mut self, elapsed: Duration, holds: bool)
        ensures
            final(self)@ == old(self)@.next(Round { elapsed: elapsed.nanos(), holds }),
    {
        match self.phase {
            DeletePhase::Stop => {
                self.phase = DeletePhase::DeleteTask;
            },
            DeletePhase::Remove => {
                self.phase = DeletePhase::AwaitRecordGone;
            },
            DeletePhase::Finished => {},
            _ => match util::poll_until(elapsed, self.timeout, holds) {
                PollVerdict::TimedOut => {
                    self.error = Some(
                        delete_timed_out(self.phase, self.container_id.as_str(), self.timeout),
                    );
                    self.phase = DeletePhase::Finished;
                },
                PollVerdict::Ready => {
                    self.phase = match self.phase {
                        DeletePhase::DeleteTask => DeletePhase::AwaitTaskGone,
                        DeletePhase::AwaitTaskGone => DeletePhase::Remove,
                        _ => DeletePhase::Finished,
                    };
                },
                PollVerdict::Again => {},
            },
        }
    }

    /// The result of a finished delete.
    pub fn outcome(self) -> (out: Result<()>)
        ensures
            match out {
                Ok(_) => self@.error is None,
                Err(e) => self@.error == Some(e@),
            },
    {
        match self.error {
            Some(e) => Err(e),
            None => Ok(()),
        }
    }
}

proof fn lemma_held_step(begin: DeleteOpSpec, rounds: Seq<Round>, phase: DeletePhase)
    requires
        rounds.len() > 0,
    ensures
        begin.held(rounds.drop_last(), phase) ==> begin.held(rounds, phase),
        begin.run(rounds.drop_last()).phase == phase && rounds.last().holds && rounds.last().elapsed
            <= begin.timeout.nanos() ==> begin.held(rounds, phase),
{
    reveal(DeleteOpSpec::held);
    let less = rounds.drop_last();
    let k = less.len() as int;
    assert(rounds.take(k) =~= less);
    assert(rounds[k] == rounds.last());
    if begin.held(less, phase) {
        let i = choose|i: int|
            0 <= i < less.len() && begin.run(less.take(i)).phase == phase && (
            #[trigger] less[i]).holds && less[i].elapsed <= begin.timeout.nanos();
        assert(rounds.take(i) =~= less.take(i));
        assert(rounds[i] == less[i]);
    }
}

/// What has held once a delete came to a phase.
proof fn lemma_delete_run(begin: DeleteOpSpec, rounds: Seq<Round>)
    requires
        begin.phase == DeletePhase::Stop,
        begin.error is None,
    ensures
        ({
            let op = begin.run(rounds);
            let succeeded = op.error is None && op.phase == DeletePhase::Finished;
            let task_gone = op.phase == DeletePhase::Remove || op.phase
                == DeletePhase::AwaitRecordGone;
            &&& op.container_id == begin.container_id
            &&& op.timeout == begin.timeout
            &&& op.phase == DeletePhase::AwaitTaskGone || task_gone || succeeded ==> begin.held(
                rounds,
                DeletePhase::DeleteTask,
            )
            &&& task_gone || succeeded ==> begin.held(rounds, DeletePhase::AwaitTaskGone)
            &&& succeeded ==> begin.held(rounds, DeletePhase::AwaitRecordGone)
        }),
    decreases rounds.len(),
{
    if rounds.len() > 0 {
        lemma_delete_run(begin, rounds.drop_last());
        lemma_held_step(begin, rounds, DeletePhase::DeleteTask);
        lemma_held_step(begin, rounds, DeletePhase::AwaitTaskGone);
        lemma_held_step(begin, rounds, DeletePhase::AwaitRecordGone);
    }
}

/// A container is removed only once its task was deleted and seen to be gone,
/// and a delete ends without an error only once the container record is seen
/// to be gone too.
pub proof fn law_delete_order(begin: DeleteOpSpec, rounds: Seq<Round>)
    requires
        begin.phase == DeletePhase::Stop,
        begin.error is None,
    ensures
        begin.run(rounds).phase == DeletePhase::Remove ==> begin.held(
            rounds,
            DeletePhase::DeleteTask,
        ) && begin.held(rounds, DeletePhase::AwaitTaskGone),
        begin.run(rounds).phase == DeletePhase::Finished && begin.run(rounds).error is None ==> {
            &&& begin.held(rounds, DeletePhase::DeleteTask)
            &&& begin.held(rounds, DeletePhase::AwaitTaskGone)
            &&& begin.held(rounds, DeletePhase::AwaitRecordGone)
        },
{
    lemma_delete_run(begin, rounds);
}

/// Deleting is idempotent: where the container does not exist, so that a look
/// at it fails with `missing`, and deleting its task counts as done, a delete
/// that is in time succeeds after one round of each phase.
pub proof fn law_delete_is_idempotent(begin: DeleteOpSpec, rounds: Seq<Round>, missing: Error)
    requires
        begin.phase == DeletePhase::Stop,
        begin.error is None,
        missing is ContainerNotFound,
        rounds.len() == 5,
        forall|i: int|
            0 <= i < rounds.len() ==> (#[trigger] rounds[i]).elapsed <= begin.timeout.nanos(),
        rounds[1].holds,
        rounds[2].holds == task_gone(Err(missing)).0,
        rounds[4].holds == record_gone(Err(missing)).0,
    ensures
        begin.run(rounds).phase == DeletePhase::Finished,
        begin.run(rounds).error is None,
        begin.run(rounds).container_id == begin.container_id,
{
    let r4 = rounds.drop_last();
    let r3 = r4.drop_last();
    let r2 = r3.drop_last();
    let r1 = r2.drop_last();
    assert(begin.run(r1.drop_last()) == begin);
    assert(begin.run(r1) == begin.next(rounds[0]));
    assert(begin.run(r2) == begin.run(r1).next(rounds[1]));
    assert(begin.run(r3) == begin.run(r2).next(rounds[2]));
    assert(begin.run(r4) == begin.run(r3).next(rounds[3]));
    assert(begin.run(rounds) == begin.run(r4).next(rounds[4]));
}

/// A delete goes on after a failed stop and a failed removal alike. A phase that
/// waits does so until what it waits for holds, which counts only in time; once
/// its time is up the delete fails, naming the phase and the container.
pub proof fn law_delete_steps(op: DeleteOpSpec, round: Round)
    ensures
        ({
            let next = op.next(round);
            let late = round.elapsed > op.timeout.nanos();
            let waits = op.phase == DeletePhase::DeleteTask || op.phase
                == DeletePhase::AwaitTaskGone || op.phase == DeletePhase::AwaitRecordGone;
            &&& op.phase == DeletePhase::Stop ==> next.phase == DeletePhase::DeleteTask
            &&& op.phase == DeletePhase::Remove ==> next.phase == DeletePhase::AwaitRecordGone
            &&& waits && late ==> next.phase == DeletePhase::Finished && next.error is Some
            &&& waits && !late && !round.holds ==> next == op
            &&& !late && round.holds && op.phase == DeletePhase::DeleteTask ==> next.phase
                == DeletePhase::AwaitTaskGone
            &&& !late && round.holds && op.phase == DeletePhase::AwaitTaskGone ==> next.phase
                == DeletePhase::Remove
            &&& !late && round.holds && op.phase == DeletePhase::AwaitRecordGone ==> next.phase
                == DeletePhase::Finished
            &&& !(waits && late) ==> next.error == op.error
            &&& late && op.phase == DeletePhase::DeleteTask ==> next.error == Some(
                ErrorSpec::Timeout(
                    "delete_container[phase=delete_task] timed out for "@ + op.container_id,
                ),
            )
            &&& late && op.phase == DeletePhase::AwaitTaskGone ==> next.error == Some(
                ErrorSpec::Timeout(
                    "delete_container[phase=task_record_gone] timed out for "@ + op.container_id
                        + " within "@ + op.timeout.shown(),
                ),
            )
            &&& late && op.phase == DeletePhase::AwaitRecordGone ==> next.error == Some(
                ErrorSpec::Timeout(
                    "delete_container[phase=container_record_gone] timed out for "@
                        + op.container_id + " within "@ + op.timeout.shown(),
                ),
            )
            &&& next.container_id == op.container_id && next.timeout == op.timeout
        }),
{
}

/// The error of a call that needs a task.
pub open spec fn task_error(op: Seq<char>, id: Seq<char>, status: StatusSpec) -> ErrorSpec {
    if status.code == Code::NotFound {
        ErrorSpec::TaskNotFound(id)
    } else {
        ErrorSpec::Containerd { op, source: status }
    }
}

/// A call that needs a task says that there is none exactly if containerd did
/// not find it; any other refusal is passed on.
pub proof fn law_task_error(op: Seq<char>, id: Seq<char>, status: StatusSpec)
    ensures
        task_error(op, id, status) is TaskNotFound <==> status.code == Code::NotFound,
        task_error(op, id, status) matches ErrorSpec::TaskNotFound(missing) ==> missing == id,
        status.code != Code::NotFound ==> (task_error(op, id, status) matches ErrorSpec::Containerd {
            op: failed,
            source,
        } && failed == op && source == status),
{
}

fn needs_task(
    op: &'static str,
    container_id: &str,
    reply: core::result::Result<(), Status>,
) -> (out: Result<()>)
    ensures
        match reply {
            Ok(_) => out is Ok,
            Err(status) => out matches Err(e) && e@ == task_error(op@, container_id@, status@),
        },
{
    match reply {
        Ok(_) => Ok(()),
        Err(status) => if status.code == Code::NotFound {
            Err(Error::TaskNotFound(String::from_str(container_id)))
        } else {
            Err(util::into_crate_error(status, op))
        },
    }
}

/// The outcome of pausing a task.
pub fn pause_container(
    container_id: &str,
    reply: core::result::Result<(), Status>,
) -> (out: Result<()>)
    ensures
        match reply {
            Ok(_) => out is Ok,
            Err(status) => out matches Err(e) && e@ == task_error(
                "pause_task"@,
                container_id@,
                status@,
            ),
        },
{
    needs_task("pause_task", container_id, reply)
}

/// The outcome of resuming a task.
pub fn unpause_container(
    container_id: &str,
    reply: core::result::Result<(), Status>,
) -> (out: Result<()>)
    ensures
        match reply {
            Ok(_) => out is Ok,
            Err(status) => out matches Err(e) && e@ == task_error(
                "unpause_task"@,
                container_id@,
                status@,
            ),
        },
{
    needs_task("unpause_task", container_id, reply)
}

} // verus!
