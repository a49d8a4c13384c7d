//! Inspect container and task state.

use vstd::prelude::*;

use crate::container::Any;
use crate::error::{Code, Error, ErrorSpec, Result, Status, StatusSpec};
use crate::maps;
use crate::maps::StringMap;
use crate::oci;
use crate::oci::SpecSummary;
use crate::port_forward;
use crate::text;
use crate::types::{ContainerId, ContainerInfo, TaskInfo, TaskStatus};
use crate::util;

verus! {

/// The pairs of those `KEY=value` strings that hold a `=`.
pub open spec fn env_pairs(env: Seq<Seq<char>>) -> Seq<maps::Pair>
    decreases env.len(),
{
    if env.len() == 0 {
        Seq::empty()
    } else {
        match text::cut(env.last(), '=') {
            Some(pair) => env_pairs(env.drop_last()).push(pair),
            None => env_pairs(env.drop_last()),
        }
    }
}

/// The variables that a list of `KEY=value` strings sets.
pub open spec fn env_map(env: Seq<Seq<char>>) -> Seq<maps::Pair> {
    maps::extended(Seq::empty(), env_pairs(env))
}

/// A `KEY=value` string sets its variable, whatever was set before, and leaves
/// the others alone; a string without an equals sign sets nothing.
pub proof fn law_env_map(env: Seq<Seq<char>>, key: Seq<char>, value: Seq<char>, line: Seq<char>)
    requires
        !key.contains('='),
        !line.contains('='),
    ensures
        env_pairs(Seq::empty()) == Seq::<maps::Pair>::empty(),
        env_pairs(env.push(key.push('=') + value)) == env_pairs(env).push((key, value)),
        env_pairs(env.push(line)) == env_pairs(env),
        maps::as_map(env_map(env.push(key.push('=') + value))) == maps::as_map(
            env_map(env),
        ).insert(key, value),
        maps::as_map(env_map(env.push(line))) == maps::as_map(env_map(env)),
{
    text::law_cut(line, key, '=', value);
    assert(env.push(key.push('=') + value).drop_last() =~= env);
    assert(env.push(line).drop_last() =~= env);
    let pairs = env_pairs(env);
    assert(pairs.push((key, value)).drop_last() =~= pairs);
    maps::lemma_extended(Seq::empty(), pairs);
    maps::lemma_inserted(env_map(env), key, value);
}

/// Parses OCI-format `"KEY=value"` strings into a map.
pub fn parse_env_vars(env: &Vec<String>) -> (vars: StringMap)
    ensures
        vars.pairs() == env_map(text::texts(env@)),
{
    let mut vars = StringMap::new();
    let n: usize = env.len();
    let ghost all = text::texts(env@);
    assert(all.take(0) =~= Seq::<Seq<char>>::empty());
    for i in 0..n
        invariant
            n == env@.len(),
            all == text::texts(env@),
            vars.pairs() == env_map(all.take(i as int)),
    {
        let ghost upto = all.take(i + 1);
        assert(upto.drop_last() =~= all.take(i as int));
        assert(upto.last() == env@[i as int]@);
        if let Some((key, value)) = text::split_once(env[i].as_str(), '=') {
            proof {
                let pairs = env_pairs(upto);
                assert(pairs.drop_last() =~= env_pairs(all.take(i as int)));
                assert(pairs.last() == (key@, value@));
            }
            vars.insert(key, value);
        }
    }
    assert(all.take(n as int) =~= all);
    vars
}

/// A container as containerd stores it.
#[derive(Debug)]
pub struct ContainerRecord {
    pub id: String,
    pub image: String,
    /// Name of the runtime.
    pub runtime: Option<String>,
    pub spec: Option<Any>,
    pub snapshotter: String,
    pub snapshot_key: String,
    pub labels: StringMap,
}

/// What a task looks like to containerd.
#[derive(Debug, Clone, Copy, PartialEq, Eq, Structural)]
pub struct ProcessState {
    pub pid: u32,
    pub status: i32,
    pub exit_status: u32,
}

/// The exit code for an exit status; real ones are 0..=255, and one that does
/// not fit saturates.
pub open spec fn exit_code(status: u32) -> i32 {
    if status <= i32::MAX {
        status as i32
    } else {
        i32::MAX
    }
}

/// What is known of a task; it has an exit code only once it stopped.
pub open spec fn task_info(p: ProcessState) -> TaskInfo {
    TaskInfo {
        pid: p.pid,
        status: TaskStatus::of(p.status),
        exit_code: if TaskStatus::of(p.status) == TaskStatus::Stopped {
            Some(exit_code(p.exit_status))
        } else {
            None
        },
    }
}

/// A task keeps its pid; it has an exit code exactly if it stopped, and that is
/// the status it exited with, or the largest code if that is larger.
pub proof fn law_task_info(p: ProcessState)
    ensures
        task_info(p).pid == p.pid,
        task_info(p).status == TaskStatus::of(p.status),
        task_info(p).exit_code is Some <==> p.status == 3,
        task_info(p).exit_code matches Some(code) ==> {
            &&& code >= 0
            &&& p.exit_status <= 0x7fff_ffff ==> code == p.exit_status
            &&& p.exit_status > 0x7fff_ffff ==> code == 0x7fff_ffff
        },
{
}

pub fn process_info(process: &ProcessState) -> (info: TaskInfo)
    ensures
        info == task_info(*process),
{
    let status = TaskStatus::from(process.status);
    let exit_code = if status == TaskStatus::Stopped {
        if process.exit_status <= i32::MAX as u32 {
            Some(process.exit_status as i32)
        } else {
            Some(i32::MAX)
        }
    } else {
        None
    };
    TaskInfo { pid: process.pid, status, exit_code }
}

/// `None` if no task exists for the container. Transport errors that aren't
/// `NotFound` are mapped to `None` too: inspect should be tolerant of
/// missing-task races.
pub fn get_task_info(
    reply: &core::result::Result<Option<ProcessState>, Status>,
) -> (info: Option<TaskInfo>)
    ensures
        info == match *reply {
            Ok(Some(p)) => Some(task_info(p)),
            _ => None,
        },
{
    match reply {
        Ok(Some(p)) => Some(process_info(p)),
        _ => None,
    }
}

/// Source and destination of each mount; an absent source is empty.
pub open spec fn mount_list(mounts: Option<Seq<(Option<Seq<char>>, Seq<char>)>>) -> Seq<
    maps::Pair,
> {
    match mounts {
        Some(v) => v.map_values(
            |m: (Option<Seq<char>>, Seq<char>)|
                (
                    match m.0 {
                        Some(s) => s,
                        None => Seq::empty(),
                    },
                    m.1,
                ),
        ),
        None => Seq::empty(),
    }
}

/// Every mount is shown, in order, with its destination and with its source if
/// it has one.
pub proof fn law_mount_list(list: Seq<(Option<Seq<char>>, Seq<char>)>, i: int)
    ensures
        mount_list(None) == Seq::<maps::Pair>::empty(),
        mount_list(Some(list)).len() == list.len(),
        0 <= i < list.len() ==> mount_list(Some(list))[i].1 == list[i].1,
        0 <= i < list.len() && list[i].0 is Some ==> mount_list(Some(list))[i].0 == list[i].0->0,
        0 <= i < list.len() && list[i].0 is None ==> mount_list(Some(list))[i].0.len() == 0,
{
}

fn extract_mounts(summary: &SpecSummary) -> (out: Vec<(String, String)>)
    ensures
        maps::pair_views(out@) == mount_list(
            match summary.mounts {
                Some(v) => Some(oci::mount_pairs(v@)),
                None => None,
            },
        ),
{
    let mut out: Vec<(String, String)> = Vec::new();
    match &summary.mounts {
        Some(v) => {
            let ghost want = mount_list(Some(oci::mount_pairs(v@)));
            let n: usize = v.len();
            for i in 0..n
                invariant
                    n == v@.len(),
                    want == mount_list(Some(oci::mount_pairs(v@))),
                    out@.len() == i,
                    forall|j: int|
                        0 <= j < i ==> ((#[trigger] out@[j]).0@, out@[j].1@) == want[j],
            {
                let source = match &v[i].0 {
                    Some(s) => s.clone(),
                    None => {
                        let empty = String::new();
                        assert(empty@ =~= Seq::<char>::empty());
                        empty
                    },
                };
                out.push((source, v[i].1.clone()));
            }
            assert(maps::pair_views(out@) =~= want);
        },
        None => {
            assert(maps::pair_views(out@) =~= Seq::<maps::Pair>::empty());
        },
    }
    out
}

/// The environment and the mounts of a container with this spec. Foreign
/// containers may use variants of the format that do not parse: they have
/// none.
pub open spec fn env_and_mounts(spec: Option<Any>) -> (Seq<maps::Pair>, Seq<maps::Pair>) {
    match spec {
        Some(any) => match oci::runtime_document(any.value@) {
            Ok(fields) => (
                match fields.env() {
                    Some(env) => env_map(env),
                    None => Seq::empty(),
                },
                mount_list(fields.mount_ends()),
            ),
            Err(_) => (Seq::empty(), Seq::empty()),
        },
        None => (Seq::empty(), Seq::empty()),
    }
}

/// The environment and the mounts that a parsed spec shows.
pub fn summarize(summary: &SpecSummary) -> (out: (StringMap, Vec<(String, String)>))
    ensures
        out.0.pairs() == match summary.env {
            Some(v) => env_map(text::texts(v@)),
            None => Seq::empty(),
        },
        maps::pair_views(out.1@) == mount_list(
            match summary.mounts {
                Some(v) => Some(oci::mount_pairs(v@)),
                None => None,
            },
        ),
{
    let env = match &summary.env {
        Some(v) => parse_env_vars(v),
        None => StringMap::new(),
    };
    (env, extract_mounts(summary))
}

fn read_env_and_mounts(spec: &Option<Any>) -> (out: (StringMap, Vec<(String, String)>))
    ensures
        (out.0.pairs(), maps::pair_views(out.1@)) == env_and_mounts(*spec),
{
    match spec {
        Some(any) => match oci::read_runtime_spec(any.value.as_slice()) {
            Ok(summary) => summarize(&summary),
            Err(_) => {
                let none: Vec<(String, String)> = Vec::new();
                assert(maps::pair_views(none@) =~= Seq::<maps::Pair>::empty());
                (StringMap::new(), none)
            },
        },
        None => {
            let none: Vec<(String, String)> = Vec::new();
            assert(maps::pair_views(none@) =~= Seq::<maps::Pair>::empty());
            (StringMap::new(), none)
        },
    }
}

/// Whether `info` is what is shown of a container record and its task.
pub open spec fn shows(info: ContainerInfo, record: ContainerRecord, task: Option<TaskInfo>) -> bool {
    &&& info.id@ == record.id@
    &&& info.image@ == record.image@
    &&& info.labels.pairs() == record.labels.pairs()
    &&& (info.env.pairs(), maps::pair_views(info.mounts@)) == env_and_mounts(record.spec)
    &&& info.task == task
    &&& info.port_forwards@ == port_forward::bindings(record.labels.pairs())
}

/// What is shown of a container is what its record holds: its id, its image, all
/// its labels, the forwards that they declare, the task that was found, and the
/// environment and mounts of its spec, which is taken to have none if it cannot
/// be read.
pub proof fn law_shows(info: ContainerInfo, record: ContainerRecord, task: Option<TaskInfo>)
    requires
        shows(info, record, task),
    ensures
        info.id@ == record.id@,
        info.image@ == record.image@,
        info.labels@ == record.labels@,
        info.task == task,
        info.port_forwards@ == port_forward::bindings(record.labels.pairs()),
        match record.spec {
            Some(any) => match oci::runtime_document(any.value@) {
                Ok(fields) => {
                    &&& fields.env() matches Some(env) ==> info.env@ == maps::as_map(
                        maps::extended(Seq::empty(), env_pairs(env)),
                    )
                    &&& fields.env() is None ==> info.env.pairs().len() == 0
                    &&& fields.mount_ends() matches Some(ends) ==> info.mounts@.len() == ends.len()
                },
                Err(_) => info.env.pairs().len() == 0 && info.mounts@.len() == 0,
            },
            None => info.env.pairs().len() == 0 && info.mounts@.len() == 0,
        },
{
    assert(maps::pair_views(info.mounts@).len() == info.mounts@.len());
}

/// Shared by inspecting and listing. Port forwards come from container labels
/// so they survive process restarts.
pub fn container_to_info(container: ContainerRecord, task: Option<TaskInfo>) -> (out: Result<
    ContainerInfo,
>)
    ensures
        match out {
            Ok(info) => util::valid_identifier(text::utf8(container.id@)) && shows(
                info,
                container,
                task,
            ),
            Err(e) => !util::valid_identifier(text::utf8(container.id@)) && e@
                == ErrorSpec::InvalidArgument(util::identifier_complaint(container.id@)),
        },
{
    let port_forwards = port_forward::parse_port_binding_labels(&container.labels);
    let (env, mounts) = read_env_and_mounts(&container.spec);
    match ContainerId::new(container.id.as_str()) {
        Ok(id) => Ok(
            ContainerInfo {
                id,
                image: container.image,
                labels: container.labels,
                env,
                mounts,
                task,
                port_forwards,
            },
        ),
        Err(e) => Err(e),
    }
}

/// The error of a failed look-up of a container.
pub open spec fn lookup_error(op: Seq<char>, id: Seq<char>, status: StatusSpec) -> ErrorSpec {
    if status.code == Code::NotFound {
        ErrorSpec::ContainerNotFound(id)
    } else {
        ErrorSpec::Containerd { op, source: status }
    }
}

/// A container is reported missing exactly if containerd did not find it; any
/// other refusal is passed on.
pub proof fn law_lookup_error(op: Seq<char>, id: Seq<char>, status: StatusSpec)
    ensures
        lookup_error(op, id, status) is ContainerNotFound <==> status.code == Code::NotFound,
        lookup_error(op, id, status) matches ErrorSpec::ContainerNotFound(missing) ==> missing
            == id,
        status.code != Code::NotFound ==> (lookup_error(
            op,
            id,
            status,
        ) matches ErrorSpec::Containerd { op: failed, source } && failed == op && source
            == status),
{
}

/// The record in the reply to a container look-up.
pub fn container_found(
    container_id: &str,
    reply: core::result::Result<Option<ContainerRecord>, Status>,
) -> (out: Result<ContainerRecord>)
    ensures
        match reply {
            Ok(Some(record)) => out == Ok::<ContainerRecord, Error>(record),
            Ok(None) => out matches Err(e) && e@ == ErrorSpec::ContainerNotFound(container_id@),
            Err(status) => out matches Err(e) && e@ == lookup_error(
                "get_container"@,
                container_id@,
                status@,
            ),
        },
{
    match reply {
        Ok(Some(record)) => Ok(record),
        Ok(None) => Err(Error::ContainerNotFound(String::from_str(container_id))),
        Err(status) => {
            if status.code == Code::NotFound {
                Err(Error::ContainerNotFound(String::from_str(container_id)))
            } else {
                Err(util::into_crate_error(status, "get_container"))
            }
        },
    }
}

/// What inspecting shows, from the replies to the container and the task
/// look-up.
pub fn inspect_container(
    record: ContainerRecord,
    task: &core::result::Result<Option<ProcessState>, Status>,
) -> (out: Result<ContainerInfo>)
    ensures
        match out {
            Ok(info) => util::valid_identifier(text::utf8(record.id@)) && shows(
                info,
                record,
                match *task {
                    Ok(Some(p)) => Some(task_info(p)),
                    _ => None,
                },
            ),
            Err(e) => !util::valid_identifier(text::utf8(record.id@)) && e@
                == ErrorSpec::InvalidArgument(util::identifier_complaint(record.id@)),
        },
{
    container_to_info(record, get_task_info(task))
}

} // verus!
