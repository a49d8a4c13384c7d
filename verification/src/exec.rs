//! Execute a command inside a running task.

use vstd::prelude::*;

use crate::container;
use crate::container::Any;
use crate::error;
use crate::error::{Error, ErrorSpec, Result, Status, StatusSpec};
use crate::list;
use crate::logs;
use crate::maps::StringMap;
use crate::numeral;
use crate::oci;
use crate::oci::{ProcessPlan, ProcessSummary};
use crate::outside;
use crate::paths;
use crate::text;

verus! {

/// Default per-stream cap on captured output. A runaway process would
/// otherwise exhaust the caller's memory; raise via
/// `ExecOpts::max_output_bytes` for log-dump-style use cases.
pub const DEFAULT_EXEC_MAX_OUTPUT_BYTES: usize = 16_777_216;

#[derive(Debug, Clone, Copy, PartialEq, Eq, Structural)]
pub struct ExecOpts {
    /// Per-stream cap on captured bytes; reads beyond this are dropped and
    /// `truncated_stdout` / `truncated_stderr` flagged on the output.
    pub max_output_bytes: usize,
}

impl Default for ExecOpts {
    fn default() -> (o: Self)
        ensures
            o.max_output_bytes == DEFAULT_EXEC_MAX_OUTPUT_BYTES,
    {
        ExecOpts { max_output_bytes: DEFAULT_EXEC_MAX_OUTPUT_BYTES }
    }
}

/// Sets the fields of [`ExecOpts`] one by one.
pub struct ExecOptsBuilder {
    pub opts: ExecOpts,
}

impl ExecOptsBuilder {
    pub fn max_output_bytes(self, n: usize) -> (b: Self)
        ensures
            b.opts.max_output_bytes == n,
    {
        ExecOptsBuilder { opts: ExecOpts { max_output_bytes: n } }
    }

    pub fn build(self) -> (o: ExecOpts)
        ensures
            o == self.opts,
    {
        self.opts
    }
}

impl ExecOpts {
    pub fn builder() -> (b: ExecOptsBuilder)
        ensures
            b.opts.max_output_bytes == DEFAULT_EXEC_MAX_OUTPUT_BYTES,
    {
        ExecOptsBuilder { opts: ExecOpts::default() }
    }
}

#[derive(Debug)]
pub struct ExecOutput {
    pub stdout: Vec<u8>,
    pub stderr: Vec<u8>,
    pub exit_code: i32,
    /// True if stdout was truncated at `ExecOpts::max_output_bytes`.
    pub truncated_stdout: bool,
    /// True if stderr was truncated at `ExecOpts::max_output_bytes`.
    pub truncated_stderr: bool,
}

impl ExecOutput {
    /// Captured stdout as text, with `U+FFFD` for what is not UTF-8.
    pub fn stdout_str(&self) -> (s: String)
        ensures
            s@ == outside::lossy_text(self.stdout@),
            vstd::utf8::valid_utf8(self.stdout@) ==> s@ == vstd::utf8::decode_utf8(self.stdout@),
    {
        outside::utf8_lossy(self.stdout.as_slice())
    }

    /// Captured stderr as text, with `U+FFFD` for what is not UTF-8.
    pub fn stderr_str(&self) -> (s: String)
        ensures
            s@ == outside::lossy_text(self.stderr@),
            vstd::utf8::valid_utf8(self.stderr@) ==> s@ == vstd::utf8::decode_utf8(self.stderr@),
    {
        outside::utf8_lossy(self.stderr.as_slice())
    }
}

/// The id of the `count`-th exec of a process.
pub open spec fn exec_id(pid: nat, count: nat) -> Seq<char> {
    "exec-"@ + numeral::decimal(pid) + "-"@ + numeral::decimal(count)
}

/// The id of an exec, from the id of this process and the number of execs
/// before it.
pub fn generate_exec_id(pid: u32, count: u64) -> (id: String)
    ensures
        id@ == exec_id(pid as nat, count as nat),
{
    let mut id = String::from_str("exec-");
    numeral::push_decimal(&mut id, pid as u64);
    id.append("-");
    numeral::push_decimal(&mut id, count);
    id
}

/// The id of an exec is told by its prefix, the process and the count.
pub proof fn law_exec_id(pid: nat, count: nat)
    ensures
        text::stripped(exec_id(pid, count), "exec-"@) is Some,
        text::cut(text::stripped(exec_id(pid, count), "exec-"@)->0, '-') == Some(
            (numeral::decimal(pid), numeral::decimal(count)),
        ),
{
    let p = numeral::decimal(pid);
    let c = numeral::decimal(count);
    reveal_strlit("-");
    let rest = p.push('-') + c;
    assert(exec_id(pid, count) =~= "exec-"@ + rest);
    text::law_stripped(exec_id(pid, count), "exec-"@, rest);
    numeral::lemma_decimal(pid);
    assert(!p.contains('-')) by {
        if p.contains('-') {
            let i = choose|i: int| 0 <= i < p.len() && p[i] == '-';
            assert('0' <= p[i] <= '9');
        }
    }
    text::law_cut(rest, p, '-', c);
}

/// No two execs share an id, be they of one process or of two.
pub proof fn law_exec_ids_are_distinct(pid1: nat, count1: nat, pid2: nat, count2: nat)
    requires
        exec_id(pid1, count1) == exec_id(pid2, count2),
    ensures
        pid1 == pid2,
        count1 == count2,
{
    reveal_strlit("exec-");
    reveal_strlit("-");
    let s = exec_id(pid1, count1);
    let p1 = numeral::decimal(pid1);
    let p2 = numeral::decimal(pid2);
    let c1 = numeral::decimal(count1);
    let c2 = numeral::decimal(count2);
    numeral::lemma_decimal(pid1);
    numeral::lemma_decimal(pid2);
    numeral::lemma_decimal(count1);
    numeral::lemma_decimal(count2);
    assert(s.subrange(5, 5 + p1.len() as int) =~= p1);
    assert(s.subrange(5, 5 + p2.len() as int) =~= p2);
    assert(s[5 + p1.len() as int] == '-');
    assert(s[5 + p2.len() as int] == '-');
    if p1.len() < p2.len() {
        assert(p2[p1.len() as int] == s[5 + p1.len() as int]);
    } else if p2.len() < p1.len() {
        assert(p1[p2.len() as int] == s[5 + p2.len() as int]);
    }
    assert(s.skip(6 + p1.len() as int) =~= c1);
    assert(s.skip(6 + p2.len() as int) =~= c2);
    numeral::lemma_digits(pid1);
    numeral::lemma_digits(pid2);
    numeral::lemma_digits(count1);
    numeral::lemma_digits(count2);
}

/// Where an exec's output goes.
#[derive(Debug)]
pub struct IoPaths {
    /// Directory of all execs.
    pub base: String,
    /// Directory of this exec.
    pub dir: String,
    pub stdout: String,
    pub stderr: String,
}

/// The directory of all execs below a home directory.
pub open spec fn io_base(home: Seq<char>) -> Seq<char> {
    paths::joined(paths::joined(home, ".containerd-manager"@), "exec-io"@)
}

/// The output of all execs is below one directory in the home directory.
pub proof fn law_io_base(home: Seq<char>)
    requires
        home.len() > 0,
        home.last() != '/',
    ensures
        io_base(home) == home + "/.containerd-manager/exec-io"@,
{
    reveal_strlit(".containerd-manager");
    reveal_strlit("exec-io");
    reveal_strlit("/.containerd-manager/exec-io");
    let root = home.push('/') + ".containerd-manager"@;
    assert(root.last() == 'r');
    assert(paths::joined(home, ".containerd-manager"@) == root);
    assert(seq!['/'] + ".containerd-manager"@ + seq!['/'] + "exec-io"@
        =~= "/.containerd-manager/exec-io"@);
    assert(io_base(home) =~= home + (seq!['/'] + ".containerd-manager"@ + seq!['/']
        + "exec-io"@));
}

/// Uses `~/.containerd-manager/exec-io/` so the paths are visible from both
/// the host and the VM. Regular files, not FIFOs: FIFO pipe semantics don't
/// survive a shared file system.
pub fn io_paths(home: Option<&str>, exec_id: &str) -> (out: Result<IoPaths>)
    ensures
        match (home, out) {
            (Some(h), Ok(p)) => {
                &&& p.base@ == io_base(h@)
                &&& p.dir@ == paths::joined(io_base(h@), exec_id@)
                &&& p.stdout@ == paths::joined(p.dir@, "stdout"@)
                &&& p.stderr@ == paths::joined(p.dir@, "stderr"@)
            },
            (None, Err(e)) => e@ == logs::no_home(),
            _ => false,
        },
{
    match home {
        Some(h) => {
            let root = paths::join(h, ".containerd-manager");
            let base = paths::join(root.as_str(), "exec-io");
            let dir = paths::join(base.as_str(), exec_id);
            let stdout = paths::join(dir.as_str(), "stdout");
            let stderr = paths::join(dir.as_str(), "stderr");
            Ok(IoPaths { base, dir, stdout, stderr })
        },
        None => Err(
            Error::Io {
                context: "home directory",
                source: crate::error::IoError {
                    kind: crate::error::IoKind::NotFound,
                    message: String::from_str("no home directory"),
                },
            },
        ),
    }
}

pub const PROCESS_TYPE_URL: &'static str =
    "types.containerd.io/opencontainers/runtime-spec/1/Process";

/// The process of an exec: like the primary process, but for its command.
pub open spec fn exec_process(
    command: Seq<Seq<char>>,
    env: Seq<Seq<char>>,
) -> oci::ProcessSpec {
    oci::ProcessSpec {
        terminal: false,
        args: command,
        env,
        cwd: "/"@,
        uid: 0,
        gid: 0,
        capabilities: container::default_capability_sets(),
    }
}

/// Whether a payload is a process spec written down.
pub open spec fn is_process(any: Any, process: oci::ProcessSpec) -> bool {
    &&& any.type_url@ == PROCESS_TYPE_URL@
    &&& oci::process_document(any.value@) == Ok::<oci::ProcessFields, Seq<char>>(process.written())
}

/// The process of an exec runs its command, word by word, in the environment
/// that it is given, as root in the root directory without a terminal, and is
/// held to the same capabilities as the primary process.
pub proof fn law_exec_process(any: Any, command: Seq<Seq<char>>, env: Seq<Seq<char>>)
    ensures
        exec_process(command, env).args == command,
        exec_process(command, env).env == env,
        exec_process(command, env).cwd == "/"@,
        exec_process(command, env).uid == 0 && exec_process(command, env).gid == 0,
        !exec_process(command, env).terminal,
        exec_process(command, env).capabilities == container::default_capability_sets(),
        is_process(any, exec_process(command, env)) ==> {
            &&& any.type_url@ == "types.containerd.io/opencontainers/runtime-spec/1/Process"@
            &&& oci::process_document(any.value@) matches Ok(fields)
            &&& fields.args == Some(command)
            &&& fields.env == Some(env)
        },
{
}

/// Writes the process of an exec down. It has the capabilities of the primary
/// process, so that exec'd helpers don't hit EACCES on paths the image
/// restricts.
pub fn build_exec_process_spec(command: &[&str], env: Vec<String>) -> (out: Result<Any>)
    ensures
        out matches Ok(any) && is_process(
            any,
            exec_process(text::slices(command@), text::texts(env@)),
        ),
{
    let process = ProcessPlan {
        terminal: false,
        args: text::own_strings(command),
        env,
        cwd: String::from_str("/"),
        uid: 0,
        gid: 0,
        capabilities: container::exec_capability_sets(),
    };
    assert(process@ =~= exec_process(text::slices(command@), text::texts(env@)));
    match oci::write_process(&process) {
        Ok(value) => Ok(Any { type_url: String::from_str(PROCESS_TYPE_URL), value }),
        Err(reason) => Err(
            container::invalid_argument("serialize process spec: ", reason.as_str()),
        ),
    }
}

/// Reads the payload of an exec back: how its process runs.
pub fn read_exec_process_spec(any: &Any) -> (out: Result<ProcessSummary>)
    ensures
        match out {
            Ok(s) => {
                &&& oci::process_document(any.value@) matches Ok(fields)
                &&& s.terminal == fields.terminal
                &&& s.uid == fields.uid
                &&& s.gid == fields.gid
                &&& oci::opt_texts(s.args) == fields.args
                &&& oci::opt_texts(s.env) == fields.env
                &&& s.cwd@ == fields.cwd
            },
            Err(e) => oci::process_document(any.value@) matches Err(reason) && e@
                == ErrorSpec::InvalidArgument("parse process spec: "@ + reason),
        },
{
    match oci::read_process(any.value.as_slice()) {
        Ok(summary) => Ok(summary),
        Err(reason) => Err(container::invalid_argument("parse process spec: ", reason.as_str())),
    }
}

/// A request to add a process to a task.
#[derive(Debug)]
pub struct ExecProcessRequest {
    pub container_id: String,
    pub stdin: String,
    pub stdout: String,
    pub stderr: String,
    pub terminal: bool,
    pub spec: Option<Any>,
    pub exec_id: String,
}

pub fn build_exec_request(
    container_id: &str,
    exec_id: &str,
    stdout_path: &str,
    stderr_path: &str,
    spec: Any,
) -> (req: ExecProcessRequest)
    ensures
        req.container_id@ == container_id@,
        req.exec_id@ == exec_id@,
        req.stdin@ == Seq::<char>::empty(),
        req.stdout@ == stdout_path@,
        req.stderr@ == stderr_path@,
        !req.terminal,
        req.spec == Some(spec),
{
    let stdin = String::new();
    assert(stdin@ =~= Seq::<char>::empty());
    ExecProcessRequest {
        container_id: String::from_str(container_id),
        stdin,
        stdout: String::from_str(stdout_path),
        stderr: String::from_str(stderr_path),
        terminal: false,
        spec: Some(spec),
        exec_id: String::from_str(exec_id),
    }
}

/// An exec needs a command.
fn check_command(command: &[&str]) -> (out: Result<()>)
    ensures
        match out {
            Ok(_) => command@.len() > 0,
            Err(e) => command@.len() == 0 && e@ == ErrorSpec::InvalidArgument(
                "command must not be empty"@,
            ),
        },
{
    if command.len() == 0 {
        Err(Error::InvalidArgument(String::from_str("command must not be empty")))
    } else {
        Ok(())
    }
}

/// The request for an exec in a container whose environment is `env`:
/// containerd does not merge it into the process by itself.
pub fn exec_request(
    container_id: &str,
    exec_id: &str,
    command: &[&str],
    env: &StringMap,
    io: &IoPaths,
) -> (out: Result<ExecProcessRequest>)
    ensures
        out matches Ok(req) && {
            &&& req.container_id@ == container_id@
            &&& req.exec_id@ == exec_id@
            &&& req.stdin@ == Seq::<char>::empty()
            &&& req.stdout@ == io.stdout@
            &&& req.stderr@ == io.stderr@
            &&& !req.terminal
            &&& req.spec matches Some(any) && is_process(
                any,
                exec_process(text::slices(command@), container::env_lines(env.pairs())),
            )
        },
{
    let lines = container::env_strings(env);
    match build_exec_process_spec(command, lines) {
        Ok(spec) => Ok(
            build_exec_request(container_id, exec_id, io.stdout.as_str(), io.stderr.as_str(), spec),
        ),
        Err(e) => Err(e),
    }
}

/// How much of an output file of `total_len` bytes is captured, and whether
/// that leaves some out.
pub fn read_capped(total_len: u64, cap: usize) -> (out: (u64, bool))
    ensures
        out.0 == if total_len <= cap {
            total_len as int
        } else {
            cap as int
        },
        out.1 == (total_len > cap),
{
    let limit: u64 = cap as u64;
    if total_len > limit {
        (limit, true)
    } else {
        (total_len, false)
    }
}

/// The output of a finished exec.
fn exec_output(
    exit_status: u32,
    stdout: (Vec<u8>, bool),
    stderr: (Vec<u8>, bool),
) -> (out: ExecOutput)
    ensures
        out.exit_code == list::signed_status(exit_status),
        out.stdout == stdout.0,
        out.truncated_stdout == stdout.1,
        out.stderr == stderr.0,
        out.truncated_stderr == stderr.1,
{
    ExecOutput {
        stdout: stdout.0,
        stderr: stderr.0,
        exit_code: list::to_signed(exit_status),
        truncated_stdout: stdout.1,
        truncated_stderr: stderr.1,
    }
}

/// Where an exec stands.
#[derive(Debug, Clone, Copy, PartialEq, Eq, Structural)]
pub enum ExecPhase {
    /// Make the output directory and files.
    PrepareIo,
    /// Read the environment of the container.
    Inspect,
    /// Add the process to the task.
    Create,
    Start,
    /// Wait for the process to exit.
    Wait,
    ReadStdout,
    ReadStderr,
    /// Drop the record of the process. A failure leaks a record, no more.
    Delete,
    Finished,
}

/// What came of a phase of an exec.
#[derive(Debug)]
pub enum ExecEvent {
    Done,
    /// The process exited.
    Exited { status: u32 },
    /// An output file was read.
    Output { data: Vec<u8>, truncated: bool },
    /// Containerd refused.
    Refused(Status),
    Failed(Error),
}

#[verifier::ext_equal]
pub enum ExecEventSpec {
    Done,
    Exited { status: u32 },
    Output { data: Seq<u8>, truncated: bool },
    Refused(StatusSpec),
    Failed(ErrorSpec),
}

impl View for ExecEvent {
    type V = ExecEventSpec;

    open spec fn view(&self) -> ExecEventSpec {
        match *self {
            ExecEvent::Done => ExecEventSpec::Done,
            ExecEvent::Exited { status } => ExecEventSpec::Exited { status },
            ExecEvent::Output { data, truncated } => ExecEventSpec::Output {
                data: data@,
                truncated,
            },
            ExecEvent::Refused(s) => ExecEventSpec::Refused(s@),
            ExecEvent::Failed(e) => ExecEventSpec::Failed(e@),
        }
    }
}

impl ExecEventSpec {
    /// The error of a phase, where a refusal is reported as the failure of
    /// `op`.
    pub open spec fn error(self, op: Seq<char>) -> ErrorSpec {
        match self {
            ExecEventSpec::Failed(e) => e,
            ExecEventSpec::Refused(s) => ErrorSpec::Containerd { op, source: s },
            _ => ErrorSpec::NotImplemented,
        }
    }
}

impl ExecEvent {
    fn into_error(self, op: &'static str) -> (e: Error)
        ensures
            e@ == self@.error(op@),
    {
        match self {
            ExecEvent::Failed(e) => e,
            ExecEvent::Refused(s) => Error::Containerd { op, source: s },
            _ => Error::NotImplemented,
        }
    }
}

/// A call to containerd about the process of an exec.
#[derive(Debug)]
pub enum ExecCall {
    Start { container_id: String, exec_id: String },
    Wait { container_id: String, exec_id: String },
    /// Drop the record of the process.
    Delete { container_id: String, exec_id: String },
}

#[verifier::ext_equal]
pub enum ExecCallSpec {
    Start { container_id: Seq<char>, exec_id: Seq<char> },
    Wait { container_id: Seq<char>, exec_id: Seq<char> },
    Delete { container_id: Seq<char>, exec_id: Seq<char> },
}

impl View for ExecCall {
    type V = ExecCallSpec;

    open spec fn view(&self) -> ExecCallSpec {
        match *self {
            ExecCall::Start { container_id, exec_id } => ExecCallSpec::Start {
                container_id: container_id@,
                exec_id: exec_id@,
            },
            ExecCall::Wait { container_id, exec_id } => ExecCallSpec::Wait {
                container_id: container_id@,
                exec_id: exec_id@,
            },
            ExecCall::Delete { container_id, exec_id } => ExecCallSpec::Delete {
                container_id: container_id@,
                exec_id: exec_id@,
            },
        }
    }
}

/// An optional call, by what it says.
pub open spec fn opt_exec_call(call: Option<ExecCall>) -> Option<ExecCallSpec> {
    match call {
        Some(c) => Some(c@),
        None => None,
    }
}

/// An ongoing exec.
#[derive(Debug)]
pub struct ExecOp {
    pub container_id: String,
    pub exec_id: String,
    pub exit_status: u32,
    /// What was captured of the output, and whether that leaves some out.
    pub stdout: (Vec<u8>, bool),
    pub stderr: (Vec<u8>, bool),
    pub phase: ExecPhase,
    /// What the exec fails with, once it failed.
    pub error: Option<Error>,
}

#[verifier::ext_equal]
pub struct ExecOpSpec {
    pub container_id: Seq<char>,
    pub exec_id: Seq<char>,
    pub exit_status: u32,
    pub stdout: Seq<u8>,
    pub truncated_stdout: bool,
    pub stderr: Seq<u8>,
    pub truncated_stderr: bool,
    pub phase: ExecPhase,
    pub error: Option<ErrorSpec>,
}

impl View for ExecOp {
    type V = ExecOpSpec;

    open spec fn view(&self) -> ExecOpSpec {
        ExecOpSpec {
            container_id: self.container_id@,
            exec_id: self.exec_id@,
            exit_status: self.exit_status,
            stdout: self.stdout.0@,
            truncated_stdout: self.stdout.1,
            stderr: self.stderr.0@,
            truncated_stderr: self.stderr.1,
            phase: self.phase,
            error: error::opt_error(self.error),
        }
    }
}

impl ExecOpSpec {
    /// An exec that has just begun.
    pub open spec fn fresh(container_id: Seq<char>, exec_id: Seq<char>) -> ExecOpSpec {
        ExecOpSpec {
            container_id,
            exec_id,
            exit_status: 0,
            stdout: Seq::empty(),
            truncated_stdout: false,
            stderr: Seq::empty(),
            truncated_stderr: false,
            phase: ExecPhase::PrepareIo,
            error: None,
        }
    }

    pub open spec fn at(self, phase: ExecPhase) -> ExecOpSpec {
        ExecOpSpec { phase, ..self }
    }

    pub open spec fn failed(self, e: ErrorSpec) -> ExecOpSpec {
        ExecOpSpec { phase: ExecPhase::Finished, error: Some(e), ..self }
    }

    /// What follows what came of the current phase.
    pub open spec fn next(self, ev: ExecEventSpec) -> ExecOpSpec {
        match self.phase {
            ExecPhase::PrepareIo => match ev {
                ExecEventSpec::Done => self.at(ExecPhase::Inspect),
                _ => self.failed(ev.error("exec_io"@)),
            },
            ExecPhase::Inspect => match ev {
                ExecEventSpec::Done => self.at(ExecPhase::Create),
                _ => self.failed(ev.error("get_container"@)),
            },
            ExecPhase::Create => match ev {
                ExecEventSpec::Done => self.at(ExecPhase::Start),
                _ => self.failed(ev.error("exec_create"@)),
            },
            ExecPhase::Start => match ev {
                ExecEventSpec::Done => self.at(ExecPhase::Wait),
                _ => self.failed(ev.error("exec_start"@)),
            },
            ExecPhase::Wait => match ev {
                ExecEventSpec::Exited { status } => ExecOpSpec {
                    exit_status: status,
                    ..self.at(ExecPhase::ReadStdout)
                },
                _ => self.failed(ev.error("exec_wait"@)),
            },
            ExecPhase::ReadStdout => match ev {
                ExecEventSpec::Output { data, truncated } => ExecOpSpec {
                    stdout: data,
                    truncated_stdout: truncated,
                    ..self.at(ExecPhase::ReadStderr)
                },
                _ => self.failed(ev.error("exec_io"@)),
            },
            ExecPhase::ReadStderr => match ev {
                ExecEventSpec::Output { data, truncated } => ExecOpSpec {
                    stderr: data,
                    truncated_stderr: truncated,
                    ..self.at(ExecPhase::Delete)
                },
                _ => self.failed(ev.error("exec_io"@)),
            },
            ExecPhase::Delete => self.at(ExecPhase::Finished),
            ExecPhase::Finished => self,
        }
    }

    /// The call that the current phase takes.
    pub open spec fn call(self) -> Option<ExecCallSpec> {
        let container_id = self.container_id;
        let exec_id = self.exec_id;
        match self.phase {
            ExecPhase::Start => Some(ExecCallSpec::Start { container_id, exec_id }),
            ExecPhase::Wait => Some(ExecCallSpec::Wait { container_id, exec_id }),
            ExecPhase::Delete => Some(ExecCallSpec::Delete { container_id, exec_id }),
            _ => None,
        }
    }

    /// The exec after all of `evs`.
    pub open spec fn run(self, evs: Seq<ExecEventSpec>) -> ExecOpSpec
        decreases evs.len(),
    {
        if evs.len() == 0 {
            self
        } else {
            self.run(evs.drop_last()).next(evs.last())
        }
    }
}

impl ExecOp {
    /// Begins an exec; an exec needs a command.
    pub fn begin(container_id: &str, exec_id: &str, command: &[&str]) -> (out: Result<Self>)
        ensures
            match out {
                Ok(op) => command@.len() > 0 && op@ == ExecOpSpec::fresh(container_id@, exec_id@),
                Err(e) => command@.len() == 0 && e@ == ErrorSpec::InvalidArgument(
                    "command must not be empty"@,
                ),
            },
    {
        match check_command(command) {
            Ok(_) => {
                let op = ExecOp {
                    container_id: String::from_str(container_id),
                    exec_id: String::from_str(exec_id),
                    exit_status: 0,
                    stdout: (Vec::new(), false),
                    stderr: (Vec::new(), false),
                    phase: ExecPhase::PrepareIo,
                    error: None,
                };
                assert(op@ =~= ExecOpSpec::fresh(container_id@, exec_id@));
                Ok(op)
            },
            Err(e) => Err(e),
        }
    }

    fn fail(&mut self, e: Error)
        ensures
            final(self)@ == old(self)@.failed(e@),
    {
        self.phase = ExecPhase::Finished;
        self.error = Some(e);
    }

    /// Takes in what came of the current phase.
    pub fn advance(&mut self, ev: ExecEvent)
        ensures
            final(self)@ == old(self)@.next(ev@),
    {
        match self.phase {
            ExecPhase::PrepareIo => match ev {
                ExecEvent::Done => {
                    self.phase = ExecPhase::Inspect;
                },
                _ => {
                    self.fail(ev.into_error("exec_io"));
                },
            },
            ExecPhase::Inspect => match ev {
                ExecEvent::Done => {
                    self.phase = ExecPhase::Create;
                },
                _ => {
                    self.fail(ev.into_error("get_container"));
                },
            },
            ExecPhase::Create => match ev {
                ExecEvent::Done => {
                    self.phase = ExecPhase::Start;
                },
                _ => {
                    self.fail(ev.into_error("exec_create"));
                },
            },
            ExecPhase::Start => match ev {
                ExecEvent::Done => {
                    self.phase = ExecPhase::Wait;
                },
                _ => {
                    self.fail(ev.into_error("exec_start"));
                },
            },
            ExecPhase::Wait => match ev {
                ExecEvent::Exited { status } => {
                    self.exit_status = status;
                    self.phase = ExecPhase::ReadStdout;
                },
                _ => {
                    self.fail(ev.into_error("exec_wait"));
                },
            },
            ExecPhase::ReadStdout => match ev {
                ExecEvent::Output { data, truncated } => {
                    self.stdout = (data, truncated);
                    self.phase = ExecPhase::ReadStderr;
                },
                _ => {
                    self.fail(ev.into_error("exec_io"));
                },
            },
            ExecPhase::ReadStderr => match ev {
                ExecEvent::Output { data, truncated } => {
                    self.stderr = (data, truncated);
                    self.phase = ExecPhase::Delete;
                },
                _ => {
                    self.fail(ev.into_error("exec_io"));
                },
            },
            ExecPhase::Delete => {
                self.phase = ExecPhase::Finished;
            },
            ExecPhase::Finished => {},
        }
    }

    /// The request that adds the process to the task, in a container whose
    /// environment is `env`.
    pub fn request(&self, command: &[&str], env: &StringMap, io: &IoPaths) -> (out: Result<
        ExecProcessRequest,
    >)
        ensures
            out matches Ok(req) && {
                &&& req.container_id@ == self@.container_id
                &&& req.exec_id@ == self@.exec_id
                &&& req.stdin@ == Seq::<char>::empty()
                &&& req.stdout@ == io.stdout@
                &&& req.stderr@ == io.stderr@
                &&& !req.terminal
                &&& req.spec matches Some(any) && is_process(
                    any,
                    exec_process(text::slices(command@), container::env_lines(env.pairs())),
                )
            },
    {
        exec_request(self.container_id.as_str(), self.exec_id.as_str(), command, env, io)
    }

    /// The call that the current phase takes. The process is created by the
    /// [`request`](Self::request).
    pub fn call(&self) -> (call: Option<ExecCall>)
        ensures
            opt_exec_call(call) == self@.call(),
    {
        let container_id = self.container_id.clone();
        let exec_id = self.exec_id.clone();
        match self.phase {
            ExecPhase::Start => Some(ExecCall::Start { container_id, exec_id }),
            ExecPhase::Wait => Some(ExecCall::Wait { container_id, exec_id }),
            ExecPhase::Delete => Some(ExecCall::Delete { container_id, exec_id }),
            _ => None,
        }
    }

    /// The result of a finished exec.
    pub fn outcome(self) -> (out: Result<ExecOutput>)
        ensures
            match out {
                Ok(o) => {
                    &&& self@.error is None
                    &&& o.exit_code == list::signed_status(self@.exit_status)
                    &&& o.stdout@ == self@.stdout
                    &&& o.truncated_stdout == self@.truncated_stdout
                    &&& o.stderr@ == self@.stderr
                    &&& o.truncated_stderr == self@.truncated_stderr
                },
                Err(e) => self@.error == Some(e@),
            },
    {
        match self.error {
            Some(e) => Err(e),
            None => Ok(exec_output(self.exit_status, self.stdout, self.stderr)),
        }
    }
}

/// An exec that has not failed has gone through the phases before its own, in
/// order.
proof fn lemma_exec_run(container_id: Seq<char>, exec_id: Seq<char>, evs: Seq<ExecEventSpec>)
    ensures
        ({
            let op = ExecOpSpec::fresh(container_id, exec_id).run(evs);
            let waited = evs.len() >= 5 && evs[0] is Done && evs[1] is Done && evs[2] is Done
                && evs[3] is Done && evs[4] == (ExecEventSpec::Exited { status: op.exit_status });
            let out = evs.len() >= 6 && evs[5] == (ExecEventSpec::Output {
                data: op.stdout,
                truncated: op.truncated_stdout,
            });
            let err = evs.len() >= 7 && evs[6] == (ExecEventSpec::Output {
                data: op.stderr,
                truncated: op.truncated_stderr,
            });
            &&& op.container_id == container_id && op.exec_id == exec_id
            &&& op.error is Some ==> op.phase == ExecPhase::Finished
            &&& op.phase == ExecPhase::Finished || evs.len() < 8
            &&& op.error is None ==> match op.phase {
                ExecPhase::PrepareIo => evs.len() == 0,
                ExecPhase::Inspect => evs.len() == 1 && evs[0] is Done,
                ExecPhase::Create => evs.len() == 2 && evs[0] is Done && evs[1] is Done,
                ExecPhase::Start => evs.len() == 3 && evs[0] is Done && evs[1] is Done
                    && evs[2] is Done,
                ExecPhase::Wait => evs.len() == 4 && evs[0] is Done && evs[1] is Done
                    && evs[2] is Done && evs[3] is Done,
                ExecPhase::ReadStdout => evs.len() == 5 && waited,
                ExecPhase::ReadStderr => evs.len() == 6 && waited && out,
                ExecPhase::Delete => evs.len() == 7 && waited && out && err,
                ExecPhase::Finished => evs.len() >= 8 && waited && out && err,
            }
        }),
    decreases evs.len(),
{
    if evs.len() > 0 {
        lemma_exec_run(container_id, exec_id, evs.drop_last());
    }
}

/// Whether the phases of an exec went well, up to the reading of its outputs.
pub open spec fn exec_well(evs: Seq<ExecEventSpec>) -> bool {
    &&& evs.len() >= 8
    &&& evs[0] is Done && evs[1] is Done && evs[2] is Done && evs[3] is Done
    &&& evs[4] is Exited
    &&& evs[5] is Output
    &&& evs[6] is Output
}

/// An exec is over after at most eight steps. It ends without an error exactly
/// if its process was created, started and waited for, and both outputs were
/// read after it exited. What is reported is then its exit status and those
/// outputs.
pub proof fn law_exec_success(
    container_id: Seq<char>,
    exec_id: Seq<char>,
    evs: Seq<ExecEventSpec>,
)
    requires
        evs.len() >= 8,
    ensures
        ({
            let op = ExecOpSpec::fresh(container_id, exec_id).run(evs);
            &&& op.phase == ExecPhase::Finished
            &&& op.error is None <==> exec_well(evs)
            &&& op.error is None ==> {
                &&& evs[4] == (ExecEventSpec::Exited { status: op.exit_status })
                &&& evs[5] == (ExecEventSpec::Output {
                    data: op.stdout,
                    truncated: op.truncated_stdout,
                })
                &&& evs[6] == (ExecEventSpec::Output {
                    data: op.stderr,
                    truncated: op.truncated_stderr,
                })
            }
        }),
    decreases evs.len(),
{
    lemma_exec_run(container_id, exec_id, evs);
    if exec_well(evs) {
        if evs.len() > 8 {
            law_exec_success(container_id, exec_id, evs.drop_last());
        } else {
            let begin = ExecOpSpec::fresh(container_id, exec_id);
            let e7 = evs.drop_last();
            let e6 = e7.drop_last();
            let e5 = e6.drop_last();
            let e4 = e5.drop_last();
            let e3 = e4.drop_last();
            let e2 = e3.drop_last();
            let e1 = e2.drop_last();
            assert(begin.run(e1.drop_last()) == begin);
            assert(begin.run(e1) == begin.next(evs[0]));
            assert(begin.run(e2) == begin.run(e1).next(evs[1]));
            assert(begin.run(e3) == begin.run(e2).next(evs[2]));
            assert(begin.run(e4) == begin.run(e3).next(evs[3]));
            assert(begin.run(e5) == begin.run(e4).next(evs[4]));
            assert(begin.run(e6) == begin.run(e5).next(evs[5]));
            assert(begin.run(e7) == begin.run(e6).next(evs[6]));
        }
    }
}

/// An exec whose step goes wrong is over and fails with what went wrong: an
/// error as it is, a refusal as containerd gave it. Only dropping the record of
/// the process may fail without consequence.
pub proof fn law_exec_failure(op: ExecOpSpec, e: ErrorSpec, s: StatusSpec)
    ensures
        ({
            let failed = op.next(ExecEventSpec::Failed(e));
            let refused = op.next(ExecEventSpec::Refused(s));
            let late = op.phase == ExecPhase::Delete || op.phase == ExecPhase::Finished;
            &&& failed.phase == ExecPhase::Finished && refused.phase == ExecPhase::Finished
            &&& !late ==> failed.error == Some(e)
            &&& !late ==> (refused.error matches Some(ErrorSpec::Containerd { source, .. })
                && source == s)
            &&& late ==> failed.error == op.error && refused.error == op.error
        }),
{
}

/// The steps of an exec that goes well, in order. The output is read only once
/// the process exited, and is kept as it was read.
pub proof fn law_exec_steps(op: ExecOpSpec, status: u32, data: Seq<u8>, truncated: bool)
    ensures
        ({
            let done = op.next(ExecEventSpec::Done);
            let exited = op.next(ExecEventSpec::Exited { status });
            let read = op.next(ExecEventSpec::Output { data, truncated });
            &&& op.phase == ExecPhase::PrepareIo ==> done.phase == ExecPhase::Inspect
            &&& op.phase == ExecPhase::Inspect ==> done.phase == ExecPhase::Create
            &&& op.phase == ExecPhase::Create ==> done.phase == ExecPhase::Start
            &&& op.phase == ExecPhase::Start ==> done.phase == ExecPhase::Wait
            &&& op.phase == ExecPhase::Wait ==> exited.phase == ExecPhase::ReadStdout
                && exited.exit_status == status
            &&& op.phase == ExecPhase::ReadStdout ==> read.phase == ExecPhase::ReadStderr
                && read.stdout == data && read.truncated_stdout == truncated && read.stderr
                == op.stderr && read.exit_status == op.exit_status
            &&& op.phase == ExecPhase::ReadStderr ==> read.phase == ExecPhase::Delete
                && read.stderr == data && read.truncated_stderr == truncated && read.stdout
                == op.stdout && read.truncated_stdout == op.truncated_stdout && read.exit_status
                == op.exit_status
            &&& op.phase == ExecPhase::Delete ==> done == (ExecOpSpec {
                phase: ExecPhase::Finished,
                ..op
            })
        }),
{
}

/// The process that was added is started, waited for and in the end dropped.
pub proof fn law_exec_call(op: ExecOpSpec)
    ensures
        op.phase == ExecPhase::Start ==> op.call() == Some(
            ExecCallSpec::Start { container_id: op.container_id, exec_id: op.exec_id },
        ),
        op.phase == ExecPhase::Wait ==> op.call() == Some(
            ExecCallSpec::Wait { container_id: op.container_id, exec_id: op.exec_id },
        ),
        op.phase == ExecPhase::Delete ==> op.call() == Some(
            ExecCallSpec::Delete { container_id: op.container_id, exec_id: op.exec_id },
        ),
{
}

/// Every call of an exec is about the process that its request added to the
/// task: it is started once it was added, waited for once it was started, and
/// dropped once it exited.
pub proof fn law_exec_calls(container_id: Seq<char>, exec_id: Seq<char>, evs: Seq<ExecEventSpec>)
    ensures
        match ExecOpSpec::fresh(container_id, exec_id).run(evs).call() {
            Some(ExecCallSpec::Start { container_id: c, exec_id: e }) => c == container_id && e
                == exec_id && evs.len() == 3 && evs[2] is Done,
            Some(ExecCallSpec::Wait { container_id: c, exec_id: e }) => c == container_id && e
                == exec_id && evs.len() == 4 && evs[2] is Done && evs[3] is Done,
            Some(ExecCallSpec::Delete { container_id: c, exec_id: e }) => c == container_id && e
                == exec_id && evs.len() == 7 && evs[4] is Exited,
            None => true,
        },
{
    lemma_exec_run(container_id, exec_id, evs);
}

} // verus!
