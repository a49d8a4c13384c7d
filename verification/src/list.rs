//! List containers in a namespace.

use vstd::prelude::*;

use crate::error::{ErrorSpec, Result, Status};
use crate::inspect;
use crate::inspect::{ContainerRecord, ProcessState};
use crate::text;
use crate::types::{ContainerInfo, TaskInfo, TaskStatus};
use crate::util;

verus! {

/// The filter for a `k=v` string.
pub open spec fn label_filter(s: Seq<char>) -> Option<Seq<char>> {
    match text::cut(s, '=') {
        Some((key, value)) => Some("labels.\""@ + key + "\"=="@ + value),
        None => None,
    }
}

/// `"k=v"` → `labels."k"==v` (containerd's filter syntax).
pub fn build_label_filter(filter: &str) -> (out: Option<String>)
    ensures
        match out {
            Some(f) => label_filter(filter@) == Some(f@),
            None => label_filter(filter@) is None,
        },
{
    match text::split_once(filter, '=') {
        Some((key, value)) => {
            let mut out = String::from_str("labels.\"");
            out.append(key.as_str());
            out.append("\"==");
            out.append(value.as_str());
            Some(out)
        },
        None => None,
    }
}

/// A string has a filter exactly if it holds an equals sign; the label is named
/// by what stands before the first one and compared with all that stands behind
/// it.
pub proof fn law_label_filter(key: Seq<char>, value: Seq<char>, s: Seq<char>)
    requires
        !key.contains('='),
    ensures
        label_filter(key.push('=') + value) == Some("labels.\""@ + key + "\"=="@ + value),
        label_filter(s) is None <==> !s.contains('='),
{
    text::law_cut(s, key, '=', value);
}

/// The filters for those strings that have one.
pub open spec fn label_filters(list: Seq<Seq<char>>) -> Seq<Seq<char>>
    decreases list.len(),
{
    if list.len() == 0 {
        Seq::empty()
    } else {
        match label_filter(list.last()) {
            Some(f) => label_filters(list.drop_last()).push(f),
            None => label_filters(list.drop_last()),
        }
    }
}

/// A request to list containers.
#[derive(Debug)]
pub struct ListContainersRequest {
    pub filters: Vec<String>,
}

/// The filters of a request: one string in which all must match, or none.
pub open spec fn request_filters(list: Seq<Seq<char>>) -> Seq<Seq<char>> {
    let parsed = label_filters(list);
    if parsed.len() == 0 {
        Seq::empty()
    } else {
        seq![text::joined(parsed, ","@)]
    }
}

/// A request never holds more than one filter, since several would each do
/// alone; a further condition is put behind a comma, and a string that is no
/// condition changes nothing.
pub proof fn law_request_filters(list: Seq<Seq<char>>, s: Seq<char>)
    ensures
        request_filters(list).len() <= 1,
        request_filters(Seq::empty()).len() == 0,
        label_filter(s) is None ==> request_filters(list.push(s)) == request_filters(list),
        label_filter(s) matches Some(f) ==> request_filters(list.push(s)) == seq![
            if request_filters(list).len() == 0 {
                f
            } else {
                request_filters(list)[0] + ","@ + f
            },
        ],
{
    assert(list.push(s).drop_last() =~= list);
    if label_filter(s) is Some {
        text::law_joined(label_filters(list), ","@, label_filter(s)->0);
        assert(label_filters(list.push(s)) == label_filters(list).push(label_filter(s)->0));
        assert(label_filters(list).push(label_filter(s)->0).len() > 0);
        if label_filters(list).len() == 0 {
            assert(label_filters(list).push(label_filter(s)->0) =~= seq![label_filter(s)->0]);
        }
    }
}

/// Multiple filters become a single comma-separated string (AND). Separate
/// entries would be OR'd, which is not what we want.
pub fn build_list_request(filters: &[&str]) -> (req: ListContainersRequest)
    ensures
        text::texts(req.filters@) == request_filters(text::slices(filters@)),
{
    let mut parsed: Vec<String> = Vec::new();
    let n: usize = filters.len();
    let ghost all = text::slices(filters@);
    assert(all.take(0) =~= Seq::<Seq<char>>::empty());
    assert(text::texts(parsed@) =~= Seq::<Seq<char>>::empty());
    for i in 0..n
        invariant
            n == filters@.len(),
            all == text::slices(filters@),
            text::texts(parsed@) == label_filters(all.take(i as int)),
    {
        let item: &str = filters[i];
        assert(all.take(i + 1).drop_last() =~= all.take(i as int));
        assert(all.take(i + 1).last() == item@);
        if let Some(f) = build_label_filter(item) {
            proof {
                text::lemma_texts_push(parsed@, f);
            }
            parsed.push(f);
        }
    }
    assert(all.take(n as int) =~= all);
    assert(text::texts(parsed@).len() == parsed@.len());
    let mut out: Vec<String> = Vec::new();
    if parsed.len() > 0 {
        out.push(text::join(&parsed, ","));
        assert(text::texts(out@) =~= request_filters(all));
    } else {
        assert(text::texts(out@) =~= request_filters(all));
    }
    ListContainersRequest { filters: out }
}

/// An exit status as a signed number of the same bits.
pub open spec fn signed_status(status: u32) -> i32 {
    if status <= 0x7fff_ffff {
        status as i32
    } else {
        (status - 0x1_0000_0000) as i32
    }
}

/// A signed status differs from the status by nothing, or by all that 32 bits
/// can count.
pub proof fn law_signed_status(status: u32)
    ensures
        signed_status(status) == status || signed_status(status) == status - 0x1_0000_0000,
{
}

pub(crate) fn to_signed(status: u32) -> (code: i32)
    ensures
        code == signed_status(status),
{
    if status <= 0x7fff_ffff {
        status as i32
    } else {
        -1 - ((0xffff_ffff - status) as i32)
    }
}

/// What a bulk listing tells of a task.
pub open spec fn listed_task(p: ProcessState) -> TaskInfo {
    TaskInfo {
        pid: p.pid,
        status: TaskStatus::of(p.status),
        exit_code: if TaskStatus::of(p.status) == TaskStatus::Stopped {
            Some(signed_status(p.exit_status))
        } else {
            None
        },
    }
}

fn listed_task_info(p: &ProcessState) -> (info: TaskInfo)
    ensures
        info == listed_task(*p),
{
    let status = TaskStatus::from(p.status);
    TaskInfo {
        pid: p.pid,
        status,
        exit_code: if status == TaskStatus::Stopped {
            Some(to_signed(p.exit_status))
        } else {
            None
        },
    }
}

/// A listing tells the same of a task as inspecting it does, as long as its exit
/// status fits a code.
pub proof fn law_listing_agrees_with_inspecting(p: ProcessState)
    requires
        p.exit_status <= 0x7fff_ffff,
    ensures
        listed_task(p) == inspect::task_info(p),
{
}

/// The tasks in the reply to a bulk listing; none if it failed.
pub open spec fn tasks_in(
    reply: core::result::Result<Vec<(String, ProcessState)>, Status>,
) -> Seq<(String, ProcessState)> {
    match reply {
        Ok(tasks) => tasks@,
        Err(_) => Seq::empty(),
    }
}

/// Tasks that could not be listed are taken not to be there; those that were
/// listed are all taken in.
pub proof fn law_tasks_in(tasks: Vec<(String, ProcessState)>, status: Status)
    ensures
        tasks_in(Ok(tasks)) == tasks@,
        tasks_in(Err(status)).len() == 0,
{
}

/// The task of a container in a bulk listing; the last one listed counts.
pub open spec fn task_of(tasks: Seq<(String, ProcessState)>, id: Seq<char>) -> Option<TaskInfo>
    decreases tasks.len(),
{
    if tasks.len() == 0 {
        None
    } else if tasks.last().0@ == id {
        Some(listed_task(tasks.last().1))
    } else {
        task_of(tasks.drop_last(), id)
    }
}

/// A container has a task in a listing exactly if the listing names it, and it
/// is the one that it is named with last; what is listed for others makes no
/// difference.
pub proof fn law_task_of(
    tasks: Seq<(String, ProcessState)>,
    more: (String, ProcessState),
    id: Seq<char>,
)
    ensures
        task_of(tasks, id) is Some <==> exists|i: int|
            0 <= i < tasks.len() && (#[trigger] tasks[i]).0@ == id,
        more.0@ == id ==> task_of(tasks.push(more), id) == Some(listed_task(more.1)),
        more.0@ != id ==> task_of(tasks.push(more), id) == task_of(tasks, id),
    decreases tasks.len(),
{
    assert(tasks.push(more).drop_last() =~= tasks);
    if tasks.len() > 0 {
        let front = tasks.drop_last();
        law_task_of(front, more, id);
        assert(tasks.last() == tasks[tasks.len() - 1]);
        if exists|i: int| 0 <= i < front.len() && (#[trigger] front[i]).0@ == id {
            let i = choose|i: int| 0 <= i < front.len() && (#[trigger] front[i]).0@ == id;
            assert(tasks[i] == front[i]);
        }
        if exists|i: int| 0 <= i < tasks.len() && (#[trigger] tasks[i]).0@ == id {
            let i = choose|i: int| 0 <= i < tasks.len() && (#[trigger] tasks[i]).0@ == id;
            if i < front.len() {
                assert(front[i] == tasks[i]);
            }
        }
    }
}

fn find_task(tasks: &Vec<(String, ProcessState)>, id: &str) -> (info: Option<TaskInfo>)
    ensures
        info == task_of(tasks@, id@),
{
    let mut i: usize = tasks.len();
    assert(tasks@.take(i as int) =~= tasks@);
    while i > 0
        invariant
            i <= tasks@.len(),
            task_of(tasks@.take(i as int), id@) == task_of(tasks@, id@),
        decreases i,
    {
        assert(tasks@.take(i as int).drop_last() =~= tasks@.take(i - 1));
        assert(tasks@.take(i as int).last() == tasks@[i - 1]);
        if text::str_eq(tasks[i - 1].0.as_str(), id) {
            return Some(listed_task_info(&tasks[i - 1].1));
        }
        i = i - 1;
    }
    None
}

/// The first record whose id is no valid identifier.
pub open spec fn first_invalid(records: Seq<ContainerRecord>) -> Option<Seq<char>>
    decreases records.len(),
{
    if records.len() == 0 {
        None
    } else {
        match first_invalid(records.drop_last()) {
            Some(id) => Some(id),
            None => if util::valid_identifier(text::utf8(records.last().id@)) {
                None
            } else {
                Some(records.last().id@)
            },
        }
    }
}

/// The first invalid id is that of a record, is invalid, and has only valid ones
/// before it; there is none exactly if all are valid.
pub proof fn law_first_invalid(records: Seq<ContainerRecord>)
    ensures
        match first_invalid(records) {
            Some(id) => !util::valid_identifier(text::utf8(id)) && exists|i: int|
                0 <= i < records.len() && (#[trigger] records[i]).id@ == id && forall|j: int|
                    0 <= j < i ==> util::valid_identifier(text::utf8((#[trigger] records[j]).id@)),
            None => forall|i: int|
                0 <= i < records.len() ==> util::valid_identifier(
                    text::utf8((#[trigger] records[i]).id@),
                ),
        },
    decreases records.len(),
{
    if records.len() > 0 {
        let front = records.drop_last();
        law_first_invalid(front);
        assert(forall|i: int| 0 <= i < front.len() ==> front[i] == #[trigger] records[i]);
        if first_invalid(front) is Some {
            let id = first_invalid(front)->0;
            let i = choose|i: int|
                0 <= i < front.len() && (#[trigger] front[i]).id@ == id && forall|j: int|
                    0 <= j < i ==> util::valid_identifier(text::utf8((#[trigger] front[j]).id@));
            assert(records[i].id@ == id);
            assert forall|j: int| 0 <= j < i implies util::valid_identifier(
                text::utf8((#[trigger] records[j]).id@),
            ) by {
                assert(front[j] == records[j]);
            }
        } else {
            assert forall|j: int| 0 <= j < front.len() implies util::valid_identifier(
                text::utf8((#[trigger] records[j]).id@),
            ) by {
                assert(front[j] == records[j]);
            }
            assert(records[records.len() - 1] == records.last());
        }
    }
}

/// Whether `out` is what is shown of containers with the given tasks: each of
/// them, or an error if one has an invalid id.
pub open spec fn listing(
    out: Result<Vec<ContainerInfo>>,
    containers: Seq<ContainerRecord>,
    tasks: Seq<(String, ProcessState)>,
) -> bool {
    match out {
        Ok(infos) => {
            &&& first_invalid(containers) is None
            &&& infos@.len() == containers.len()
            &&& forall|i: int|
                0 <= i < infos@.len() ==> inspect::shows(
                    #[trigger] infos@[i],
                    containers[i],
                    task_of(tasks, containers[i].id@),
                )
        },
        Err(e) => first_invalid(containers) matches Some(id) && e@ == ErrorSpec::InvalidArgument(
            util::identifier_complaint(id),
        ),
    }
}

/// A listing shows every container, in order and with its own task, or names an
/// invalid id that is there.
pub proof fn law_listing(
    out: Result<Vec<ContainerInfo>>,
    containers: Seq<ContainerRecord>,
    tasks: Seq<(String, ProcessState)>,
    i: int,
)
    requires
        listing(out, containers, tasks),
    ensures
        out is Ok <==> forall|j: int|
            0 <= j < containers.len() ==> util::valid_identifier(
                text::utf8((#[trigger] containers[j]).id@),
            ),
        out matches Ok(infos) ==> infos@.len() == containers.len(),
        out matches Ok(infos) ==> 0 <= i < containers.len() ==> infos@[i].id@ == containers[i].id@
            && infos@[i].image@ == containers[i].image@ && infos@[i].labels@
            == containers[i].labels@ && infos@[i].task == task_of(tasks, containers[i].id@),
{
    law_first_invalid(containers);
    match out {
        Ok(infos) => {
            if 0 <= i < containers.len() {
                assert(inspect::shows(
                    infos@[i],
                    containers[i],
                    task_of(tasks, containers[i].id@),
                ));
            }
        },
        Err(_) => {},
    }
}

/// What a listing shows, from the replies to the two bulk look-ups: every
/// container with its task. A container with an invalid id makes the listing
/// fail. Where the tasks could not be listed the containers are shown without.
pub fn list_containers(
    containers: core::result::Result<Vec<ContainerRecord>, Status>,
    tasks: &core::result::Result<Vec<(String, ProcessState)>, Status>,
) -> (out: Result<Vec<ContainerInfo>>)
    ensures
        match containers {
            Ok(records) => listing(out, records@, tasks_in(*tasks)),
            Err(status) => out matches Err(e) && e@ == (ErrorSpec::Containerd {
                op: "list_containers"@,
                source: status@,
            }),
        },
{
    let records = match containers {
        Ok(records) => records,
        Err(status) => {
            return Err(util::into_crate_error(status, "list_containers"));
        },
    };
    match tasks {
        Ok(listed) => join_tasks(records, listed),
        Err(_) => {
            let none: Vec<(String, ProcessState)> = Vec::new();
            assert(none@ =~= tasks_in(*tasks));
            join_tasks(records, &none)
        },
    }
}

fn join_tasks(
    containers: Vec<ContainerRecord>,
    tasks: &Vec<(String, ProcessState)>,
) -> (out: Result<Vec<ContainerInfo>>)
    ensures
        listing(out, containers@, tasks@),
{
    let ghost all = containers@;
    let mut rest = containers;
    let mut infos: Vec<ContainerInfo> = Vec::new();
    let n: usize = rest.len();
    for i in 0..n
        invariant
            n == all.len(),
            all == containers@,
            rest@ == all.skip(i as int),
            infos@.len() == i,
            first_invalid(all.take(i as int)) is None,
            forall|j: int|
                0 <= j < i ==> inspect::shows(
                    #[trigger] infos@[j],
                    all[j],
                    task_of(tasks@, all[j].id@),
                ),
    {
        let record = rest.remove(0);
        assert(record == all[i as int]);
        assert(rest@ =~= all.skip(i + 1));
        assert(all.take(i + 1).drop_last() =~= all.take(i as int));
        let task = find_task(tasks, record.id.as_str());
        match inspect::container_to_info(record, task) {
            Ok(info) => {
                infos.push(info);
            },
            Err(e) => {
                proof {
                    assert(all.take(i + 1).last() == all[i as int]);
                    lemma_first_invalid_extends(all, i + 1);
                }
                return Err(e);
            },
        }
    }
    assert(all.take(n as int) =~= all);
    Ok(infos)
}

proof fn lemma_first_invalid_extends(records: Seq<ContainerRecord>, k: int)
    requires
        0 <= k <= records.len(),
        first_invalid(records.take(k)) is Some,
    ensures
        first_invalid(records) == first_invalid(records.take(k)),
    decreases records.len() - k,
{
    if k == records.len() {
        assert(records.take(k) =~= records);
    } else {
        assert(records.take(k + 1).drop_last() =~= records.take(k));
        lemma_first_invalid_extends(records, k + 1);
    }
}

} // verus!
