//! Task stdout/stderr log files.
//!
//! Layout under `~/.containerd-manager/task-logs/<container_id>/`:
//! - `stdout`, `stderr`: raw byte sinks the shim writes to
//! - `events.log`: timestamped + rotated events the tailer produces
//! - `events.log.1` .. `events.log.5`: rotated history
//!
//! Timestamps are taken at observation (~100ms accuracy via the polling
//! tailer), not at write.

use bytes::Bytes;
use vstd::prelude::*;

use crate::error::{Error, IoError, IoKind, Result};
use crate::outside;
use crate::paths;
use crate::records;
use crate::records::{LogEntry, MAX_RECORD_BYTES};
use crate::text;
use crate::time::SystemTime;

verus! {

/// Milliseconds between two polls of a follower.
pub const FOLLOW_INTERVAL_MS: u64 = 100;

/// Entries that a follower holds ready for its receiver.
pub const FOLLOW_CHANNEL_CAP: usize = 256;

/// Max bytes per events.log file before rotation. After rotation the oldest
/// rotated file is pruned if `MAX_ROTATED_FILES` is exceeded.
pub const EVENTS_ROTATE_BYTES: u64 = 10_485_760;

pub const MAX_ROTATED_FILES: u64 = 5;

/// Max bytes read in one rotated-file drain pass. Stops a huge `.1` from
/// exhausting the follower's memory; the remainder is lost.
pub const ROTATED_DRAIN_MAX_BYTES: u64 = 16_777_216;

/// The log directory of a container below a home directory.
pub open spec fn log_dir(home: Seq<char>, id: Seq<char>) -> Seq<char> {
    paths::joined(paths::joined(paths::joined(home, ".containerd-manager"@), "task-logs"@), id)
}

/// The logs of a container are in a directory of its own below the home
/// directory.
pub proof fn law_log_dir(home: Seq<char>, id: Seq<char>)
    requires
        home.len() > 0,
        home.last() != '/',
        id.len() > 0,
        id[0] != '/',
    ensures
        log_dir(home, id) == home + "/.containerd-manager/task-logs/"@ + id,
{
    reveal_strlit(".containerd-manager");
    reveal_strlit("task-logs");
    reveal_strlit("/.containerd-manager/task-logs/");
    let root = home.push('/') + ".containerd-manager"@;
    assert(root.last() == 'r');
    assert(paths::joined(home, ".containerd-manager"@) == root);
    let logs = root.push('/') + "task-logs"@;
    assert(logs.last() == 's');
    assert(paths::joined(root, "task-logs"@) == logs);
    assert(seq!['/'] + ".containerd-manager"@ + seq!['/'] + "task-logs"@ + seq!['/']
        =~= "/.containerd-manager/task-logs/"@);
    assert(log_dir(home, id) =~= home + (seq!['/'] + ".containerd-manager"@ + seq!['/']
        + "task-logs"@ + seq!['/']) + id);
}

/// The error for a missing home directory.
pub open spec fn no_home() -> crate::error::ErrorSpec {
    crate::error::ErrorSpec::Io {
        context: "home directory"@,
        source: crate::error::IoErrorSpec {
            kind: IoKind::NotFound,
            message: "no home directory"@,
        },
    }
}

/// A missing home directory is something that was not found.
pub proof fn law_no_home()
    ensures
        no_home() matches crate::error::ErrorSpec::Io { context, source } && context
            == "home directory"@ && source.kind == IoKind::NotFound && source.message
            == "no home directory"@,
{
}

/// `~/.containerd-manager/task-logs/{container_id}/`: under the home
/// directory, so the paths are visible from both the host and the VM.
pub fn log_dir_for(home: Option<&str>, container_id: &str) -> (dir: Result<String>)
    ensures
        match (home, dir) {
            (Some(h), Ok(d)) => d@ == log_dir(h@, container_id@),
            (None, Err(e)) => e@ == no_home(),
            _ => false,
        },
{
    match home {
        Some(h) => {
            let root = paths::join(h, ".containerd-manager");
            let logs = paths::join(root.as_str(), "task-logs");
            Ok(paths::join(logs.as_str(), container_id))
        },
        None => Err(
            Error::Io {
                context: "home directory",
                source: IoError {
                    kind: IoKind::NotFound,
                    message: String::from_str("no home directory"),
                },
            },
        ),
    }
}

/// The raw stdout and stderr files of a container.
pub fn log_paths_for(home: Option<&str>, container_id: &str) -> (out: Result<(String, String)>)
    ensures
        match (home, out) {
            (Some(h), Ok((o, e))) => {
                &&& o@ == paths::joined(log_dir(h@, container_id@), "stdout"@)
                &&& e@ == paths::joined(log_dir(h@, container_id@), "stderr"@)
            },
            (None, Err(e)) => e@ == no_home(),
            _ => false,
        },
{
    match log_dir_for(home, container_id) {
        Ok(dir) => Ok((paths::join(dir.as_str(), "stdout"), paths::join(dir.as_str(), "stderr"))),
        Err(e) => Err(e),
    }
}

/// The events file of a container.
pub fn events_path_for(home: Option<&str>, container_id: &str) -> (out: Result<String>)
    ensures
        match (home, out) {
            (Some(h), Ok(p)) => p@ == paths::joined(log_dir(h@, container_id@), "events.log"@),
            (None, Err(e)) => e@ == no_home(),
            _ => false,
        },
{
    match log_dir_for(home, container_id) {
        Ok(dir) => Ok(paths::join(dir.as_str(), "events.log")),
        Err(e) => Err(e),
    }
}

/// The paths that a rotated history may occupy, oldest first.
pub open spec fn rotated_history(events_path: Seq<char>) -> Seq<Seq<char>> {
    Seq::new(
        MAX_ROTATED_FILES as nat,
        |i: int| paths::rotated(events_path, (MAX_ROTATED_FILES - i) as nat),
    )
}

/// A history has five places, of which the one with the highest number holds
/// the oldest file and comes first.
pub proof fn law_rotated_history(events_path: Seq<char>, i: int)
    ensures
        rotated_history(events_path).len() == 5,
        0 <= i < 5 ==> rotated_history(events_path)[i] == paths::rotated(
            events_path,
            (5 - i) as nat,
        ),
{
}

/// The rotated files, oldest first: the paths to look for before reading.
pub fn rotated_candidates(events_path: &str) -> (out: Vec<String>)
    ensures
        text::texts(out@) == rotated_history(events_path@),
{
    let mut out: Vec<String> = Vec::new();
    for i in 0..MAX_ROTATED_FILES
        invariant
            out@.len() == i,
            forall|j: int| 0 <= j < i ==> (#[trigger] out@[j])@ == rotated_history(events_path@)[j],
    {
        out.push(paths::rotated_path(events_path, MAX_ROTATED_FILES - i));
    }
    assert(text::texts(out@) =~= rotated_history(events_path@));
    out
}

/// The members of `list` whose flag is set, in order.
pub open spec fn selected(list: Seq<Seq<char>>, flags: Seq<bool>) -> Seq<Seq<char>>
    decreases list.len(),
{
    if list.len() == 0 || flags.len() == 0 {
        Seq::empty()
    } else if flags.last() {
        selected(list.drop_last(), flags.drop_last()).push(list.last())
    } else {
        selected(list.drop_last(), flags.drop_last())
    }
}

/// What is selected are those with their flag set, in their order.
pub proof fn law_selected(list: Seq<Seq<char>>, flags: Seq<bool>, more: Seq<char>, flag: bool)
    ensures
        selected(Seq::empty(), Seq::empty()) == Seq::<Seq<char>>::empty(),
        selected(list.push(more), flags.push(flag)) == if flag {
            selected(list, flags).push(more)
        } else {
            selected(list, flags)
        },
{
    assert(list.push(more).drop_last() =~= list);
    assert(flags.push(flag).drop_last() =~= flags);
}

/// `events.log` + rotated `.1` .. `.N` in oldest-first read order. `present`
/// says, for each of the `rotated_candidates`, whether it exists.
pub fn events_files_oldest_first(events_path: &str, present: &Vec<bool>) -> (out: Vec<String>)
    requires
        present@.len() == MAX_ROTATED_FILES,
    ensures
        text::texts(out@) == selected(rotated_history(events_path@), present@).push(events_path@),
{
    let candidates = rotated_candidates(events_path);
    let ghost all = rotated_history(events_path@);
    let mut out: Vec<String> = Vec::new();
    let n: usize = candidates.len();
    assert(all.len() == n) by {
        assert(text::texts(candidates@).len() == candidates@.len());
    }
    for i in 0..n
        invariant
            n == candidates@.len(),
            n == present@.len(),
            all == text::texts(candidates@),
            text::texts(out@) == selected(all.take(i as int), present@.take(i as int)),
    {
        assert(all.take(i + 1).drop_last() =~= all.take(i as int));
        assert(present@.take(i + 1).drop_last() =~= present@.take(i as int));
        assert(all.take(i + 1).last() == candidates@[i as int]@);
        if present[i] {
            proof {
                text::lemma_texts_push(out@, candidates@[i as int]);
            }
            out.push(candidates[i].clone());
        }
    }
    assert(all.take(n as int) =~= all);
    assert(present@.take(n as int) =~= present@);
    let ghost before = out@;
    out.push(String::from_str(events_path));
    proof {
        text::lemma_texts_push(before, out@.last());
    }
    out
}

/// A log file that cannot be read. One that does not exist holds nothing.
pub fn file_read_failed(source: IoError) -> (out: Result<()>)
    ensures
        match out {
            Ok(_) => source.kind == IoKind::NotFound,
            Err(e) => source.kind != IoKind::NotFound && e@ == io_error(
                "read task log file"@,
                source@,
            ),
        },
{
    match source.kind {
        IoKind::NotFound => Ok(()),
        _ => Err(Error::Io { context: "read task log file", source }),
    }
}

/// Filter applied to `container_logs_filtered`. All fields are `None` by
/// default (no filtering).
#[derive(Debug, Clone, Copy)]
pub struct LogsFilter {
    /// Keep only the last N entries after `since` + `until` apply.
    pub tail: Option<usize>,
    /// Drop entries with `timestamp < since`.
    pub since: Option<SystemTime>,
    /// Drop entries with `timestamp > until`.
    pub until: Option<SystemTime>,
}

impl Default for LogsFilter {
    fn default() -> (f: Self)
        ensures
            f == (LogsFilter { tail: None, since: None, until: None }),
    {
        LogsFilter { tail: None, since: None, until: None }
    }
}

/// Sets the fields of a [`LogsFilter`] one by one.
pub struct LogsFilterBuilder {
    pub filter: LogsFilter,
}

impl LogsFilterBuilder {
    pub fn tail(self, n: usize) -> (b: Self)
        ensures
            b.filter == (LogsFilter { tail: Some(n), ..self.filter }),
    {
        LogsFilterBuilder { filter: LogsFilter { tail: Some(n), ..self.filter } }
    }

    pub fn since(self, t: SystemTime) -> (b: Self)
        ensures
            b.filter == (LogsFilter { since: Some(t), ..self.filter }),
    {
        LogsFilterBuilder { filter: LogsFilter { since: Some(t), ..self.filter } }
    }

    pub fn until(self, t: SystemTime) -> (b: Self)
        ensures
            b.filter == (LogsFilter { until: Some(t), ..self.filter }),
    {
        LogsFilterBuilder { filter: LogsFilter { until: Some(t), ..self.filter } }
    }

    pub fn build(self) -> (f: LogsFilter)
        ensures
            f == self.filter,
    {
        self.filter
    }
}

impl LogsFilter {
    pub fn builder() -> (b: LogsFilterBuilder)
        ensures
            b.filter == (LogsFilter { tail: None, since: None, until: None }),
    {
        LogsFilterBuilder { filter: LogsFilter { tail: None, since: None, until: None } }
    }

    /// Whether an entry lies within the filter's time bounds.
    pub open spec fn admits(self, e: records::EntrySpec) -> bool {
        &&& self.since matches Some(t) ==> t.nanos <= e.timestamp.nanos
        &&& self.until matches Some(t) ==> e.timestamp.nanos <= t.nanos
    }

    /// The entries that the filter keeps.
    pub open spec fn kept(self, es: Seq<records::EntrySpec>) -> Seq<records::EntrySpec> {
        let within = es.filter(|e: records::EntrySpec| self.admits(e));
        match self.tail {
            Some(n) if within.len() > n => within.skip(within.len() - n),
            _ => within,
        }
    }
}

/// The entries of several files, one file after the other.
pub open spec fn all_entries(files: Seq<Bytes>) -> Seq<records::EntrySpec>
    decreases files.len(),
{
    if files.len() == 0 {
        Seq::empty()
    } else {
        all_entries(files.drop_last()) + records::entries(outside::contents(files.last()))
    }
}

/// The entries of one more file come behind those of the files before it.
pub proof fn law_all_entries(files: Seq<Bytes>, more: Bytes)
    ensures
        all_entries(Seq::empty()) == Seq::<records::EntrySpec>::empty(),
        all_entries(files.push(more)) == all_entries(files) + records::entries(
            outside::contents(more),
        ),
{
    assert(files.push(more).drop_last() =~= files);
}

/// Drops the first `n` elements.
fn drop_front(list: &mut Vec<LogEntry>, n: usize)
    requires
        n <= old(list)@.len(),
    ensures
        final(list)@ == old(list)@.skip(n as int),
{
    let kept = list.split_off(n);
    *list = kept;
    assert(list@ =~= old(list)@.skip(n as int));
}

/// All events of a container whose files, oldest first, hold `files`.
pub fn container_logs(files: &Vec<Bytes>) -> (out: Vec<LogEntry>)
    ensures
        records::entry_views(out@) == all_entries(files@),
{
    let mut out: Vec<LogEntry> = Vec::new();
    let n: usize = files.len();
    assert(records::entry_views(out@) =~= all_entries(files@.take(0)));
    for i in 0..n
        invariant
            n == files@.len(),
            records::entry_views(out@) == all_entries(files@.take(i as int)),
    {
        let (mut found, _) = records::scan_records(&files[i]);
        let ghost before = out@;
        let ghost more = found@;
        out.append(&mut found);
        assert(files@.take(i + 1).drop_last() =~= files@.take(i as int));
        assert(records::entry_views(out@) =~= records::entry_views(before) + records::entry_views(
            more,
        ));
    }
    assert(files@.take(n as int) =~= files@);
    out
}

/// The events of a container that `filter` keeps, oldest first.
pub fn container_logs_filtered(files: &Vec<Bytes>, filter: &LogsFilter) -> (out: Vec<LogEntry>)
    ensures
        records::entry_views(out@) == filter.kept(all_entries(files@)),
{
    let all = container_logs(files);
    let ghost views = records::entry_views(all@);
    let ghost keep = |e: records::EntrySpec| filter.admits(e);
    let mut out: Vec<LogEntry> = Vec::new();
    let n: usize = all.len();
    assert(records::entry_views(out@) =~= views.take(0).filter(keep)) by {
        reveal(Seq::filter);
    }
    for i in 0..n
        invariant
            n == all@.len(),
            views == records::entry_views(all@),
            keep == (|e: records::EntrySpec| filter.admits(e)),
            records::entry_views(out@) == views.take(i as int).filter(keep),
    {
        assert(views.take(i + 1).drop_last() =~= views.take(i as int));
        assert(views.take(i + 1).last() == all@[i as int]@);
        proof {
            reveal(Seq::filter);
        }
        let late_enough = match filter.since {
            Some(t) => !all[i].timestamp.before(&t),
            None => true,
        };
        let early_enough = match filter.until {
            Some(t) => !t.before(&all[i].timestamp),
            None => true,
        };
        if late_enough && early_enough {
            let ghost before = out@;
            out.push(all[i].clone());
            assert(records::entry_views(out@) =~= records::entry_views(before).push(
                all@[i as int]@,
            ));
        }
    }
    assert(views.take(n as int) =~= views);
    match filter.tail {
        Some(t) => {
            if out.len() > t {
                let skip: usize = out.len() - t;
                let ghost before = out@;
                drop_front(&mut out, skip);
                assert(records::entry_views(out@) =~= records::entry_views(before).skip(
                    skip as int,
                ));
            }
        },
        None => {},
    }
    out
}

/// The entries of all groups, one group after the other, as records keep them.
pub open spec fn all_stored(groups: Seq<Seq<records::EntrySpec>>) -> Seq<records::EntrySpec>
    decreases groups.len(),
{
    if groups.len() == 0 {
        Seq::empty()
    } else {
        all_stored(groups.drop_last()) + records::stored_all(groups.last())
    }
}

/// A history that rotation spread over several files reads as one: what was
/// written first comes first, and nothing is lost between two files.
pub proof fn law_history_reads_as_one(files: Seq<Bytes>, groups: Seq<Seq<records::EntrySpec>>)
    requires
        files.len() == groups.len(),
        forall|i: int|
            0 <= i < files.len() ==> outside::contents(#[trigger] files[i])
                == records::encoded_all(groups[i]),
        forall|i: int, j: int|
            0 <= i < groups.len() && 0 <= j < groups[i].len() ==> (#[trigger] groups[i][j]).data.len()
                <= MAX_RECORD_BYTES,
    ensures
        all_entries(files) == all_stored(groups),
    decreases files.len(),
{
    if files.len() > 0 {
        let k = files.len() - 1;
        let front = files.drop_last();
        let less = groups.drop_last();
        assert forall|i: int| 0 <= i < front.len() implies outside::contents(#[trigger] front[i])
            == records::encoded_all(less[i]) by {
            assert(front[i] == files[i] && less[i] == groups[i]);
        }
        assert forall|i: int, j: int|
            0 <= i < less.len() && 0 <= j < less[i].len() implies (
        #[trigger] less[i][j]).data.len() <= MAX_RECORD_BYTES by {
            assert(less[i][j] == groups[i][j]);
        }
        law_history_reads_as_one(front, less);
        let es = groups[k];
        assert forall|j: int| 0 <= j < es.len() implies (#[trigger] es[j]).data.len()
            <= MAX_RECORD_BYTES by {
            assert(groups[k][j].data.len() <= MAX_RECORD_BYTES);
        }
        records::law_parse_of_encoded(es, Seq::empty());
        assert(records::encoded_all(es) + Seq::<u8>::empty() =~= records::encoded_all(es));
        assert(records::stored_all(es) + records::entries(Seq::empty()) =~= records::stored_all(es));
        assert(outside::contents(files[k]) == records::encoded_all(es));
    }
}

/// A filter without bounds keeps everything.
pub proof fn law_default_filter_keeps_all(es: Seq<records::EntrySpec>)
    ensures
        (LogsFilter { tail: None, since: None, until: None }).kept(es) == es,
    decreases es.len(),
{
    reveal(Seq::filter);
    let f = LogsFilter { tail: None, since: None, until: None };
    if es.len() > 0 {
        law_default_filter_keeps_all(es.drop_last());
        assert(f.kept(es.drop_last()) == es.drop_last());
        assert(f.admits(es.last()));
        assert(f.kept(es) =~= es);
    } else {
        assert(f.kept(es) =~= es);
    }
}

/// Without `tail` a filter keeps every entry that lies within its bounds, in the
/// order of the log, and no other: an entry at the end of the log is kept, at
/// the end, exactly if it is neither before `since` nor after `until`.
pub proof fn law_filter_keeps_what_is_within(
    filter: LogsFilter,
    es: Seq<records::EntrySpec>,
    e: records::EntrySpec,
)
    requires
        filter.tail is None,
    ensures
        filter.kept(Seq::empty()) == Seq::<records::EntrySpec>::empty(),
        ({
            let too_early = filter.since matches Some(t) && e.timestamp.nanos < t.nanos;
            let too_late = filter.until matches Some(t) && t.nanos < e.timestamp.nanos;
            filter.kept(es.push(e)) == if too_early || too_late {
                filter.kept(es)
            } else {
                filter.kept(es).push(e)
            }
        }),
{
    reveal(Seq::filter);
    assert(es.push(e).drop_last() =~= es);
    assert(filter.kept(Seq::empty()) =~= Seq::<records::EntrySpec>::empty());
}

/// With `tail` a filter keeps the last entries of those that it keeps without,
/// in their order: as many as `tail` says, or all if there are no more.
pub proof fn law_tail_keeps_the_last(filter: LogsFilter, es: Seq<records::EntrySpec>, n: usize)
    requires
        filter.tail == Some(n),
    ensures
        ({
            let within = LogsFilter { tail: None, ..filter }.kept(es);
            let kept = filter.kept(es);
            &&& kept.len() == if within.len() < n {
                within.len() as int
            } else {
                n as int
            }
            &&& forall|i: int|
                0 <= i < kept.len() ==> #[trigger] kept[i] == within[within.len() - kept.len() + i]
        }),
{
    let bare = LogsFilter { tail: None, ..filter };
    let a = |e: records::EntrySpec| filter.admits(e);
    let b = |e: records::EntrySpec| bare.admits(e);
    assert(a =~= b);
}

/// Whatever a filter keeps lies within its time bounds, and `tail` bounds how
/// much it keeps.
pub proof fn law_filter_bounds(filter: LogsFilter, es: Seq<records::EntrySpec>)
    ensures
        forall|i: int|
            0 <= i < filter.kept(es).len() ==> filter.admits(#[trigger] filter.kept(es)[i])
                && es.contains(filter.kept(es)[i]),
        filter.tail matches Some(n) ==> filter.kept(es).len() <= n,
{
    let keep = |e: records::EntrySpec| filter.admits(e);
    let within = es.filter(keep);
    lemma_filtered(es, keep);
    assert forall|i: int| 0 <= i < filter.kept(es).len() implies filter.admits(
        #[trigger] filter.kept(es)[i],
    ) && es.contains(filter.kept(es)[i]) by {
        match filter.tail {
            Some(n) if within.len() > n => {
                assert(filter.kept(es)[i] == within[i + within.len() - n]);
                assert(keep(within[i + within.len() - n]));
            },
            _ => {
                assert(keep(within[i]));
            },
        }
    }
}

proof fn lemma_filtered(es: Seq<records::EntrySpec>, keep: spec_fn(records::EntrySpec) -> bool)
    ensures
        forall|i: int|
            0 <= i < es.filter(keep).len() ==> keep(#[trigger] es.filter(keep)[i]) && es.contains(
                es.filter(keep)[i],
            ),
    decreases es.len(),
{
    reveal(Seq::filter);
    if es.len() > 0 {
        let front = es.drop_last();
        lemma_filtered(front, keep);
        assert forall|i: int| 0 <= i < es.filter(keep).len() implies keep(
            #[trigger] es.filter(keep)[i],
        ) && es.contains(es.filter(keep)[i]) by {
            if i < front.filter(keep).len() {
                let x = front.filter(keep)[i];
                assert(es.filter(keep)[i] == x);
                let k = choose|k: int| 0 <= k < front.len() && front[k] == x;
                assert(es[k] == x);
            } else {
                assert(es.filter(keep)[i] == es.last());
            }
        }
    }
}

/// Where a follower stands in `events.log`. `inode` detects rotation: when the
/// tailer renames events.log to events.log.1, the new events.log has a
/// different inode and reading restarts at position 0.
#[derive(Debug)]
pub struct EventsTailState {
    pub pos: u64,
    /// Partial trailing record bytes from the previous poll. Prepended to the
    /// next read.
    pub leftover: Vec<u8>,
    /// File identity of the open events.log. `None` until the file was opened
    /// once.
    pub inode: Option<u64>,
}

#[verifier::ext_equal]
pub struct FollowSpec {
    pub pos: nat,
    pub leftover: Seq<u8>,
    pub inode: Option<u64>,
}

impl View for EventsTailState {
    type V = FollowSpec;

    open spec fn view(&self) -> FollowSpec {
        FollowSpec { pos: self.pos as nat, leftover: self.leftover@, inode: self.inode }
    }
}

/// What a follower does next once it has looked at `events.log`.
#[derive(Debug, Clone, Copy, PartialEq, Eq, Structural)]
pub enum PollStep {
    /// The file was rotated: drain the old one, known by its inode, from
    /// `prev_pos` on, then continue with `after_rotation`.
    DrainRotated { prev_inode: u64, prev_pos: u64 },
    /// Read from `from` to the end of the file.
    Read { from: u64 },
    /// Nothing new.
    Idle,
}

/// How one poll of a follower ended.
#[derive(Debug)]
pub enum PollOutcome {
    Continue,
    ReceiverDropped,
    Fatal(Error),
}

impl FollowSpec {
    /// The state of a follower that starts on a file from its beginning.
    pub open spec fn restarted(inode: u64) -> FollowSpec {
        FollowSpec { pos: 0, leftover: Seq::empty(), inode: Some(inode) }
    }

    /// What is left to read, once the state is on the right file.
    pub open spec fn step(self, len: u64) -> PollStep {
        if len == self.pos {
            PollStep::Idle
        } else {
            PollStep::Read { from: self.pos as u64 }
        }
    }

    /// The state after the file was seen with length `len` and identity
    /// `inode`, unless it was rotated.
    pub open spec fn seen(self, len: u64, inode: u64) -> FollowSpec {
        if len < self.pos {
            FollowSpec::restarted(inode)
        } else {
            FollowSpec { inode: Some(inode), ..self }
        }
    }

    /// What is left unread in memory after `data` was read.
    pub open spec fn leftover_after(self, data: Seq<u8>) -> Seq<u8> {
        let rest = records::unread(self.leftover + data);
        if rest.len() > MAX_RECORD_BYTES && text::position(rest, 10u8) is None {
            Seq::empty()
        } else {
            rest
        }
    }
}

/// The error of a failed operation on a log file.
pub open spec fn io_error(
    context: Seq<char>,
    source: crate::error::IoErrorSpec,
) -> crate::error::ErrorSpec {
    crate::error::ErrorSpec::Io { context, source }
}

impl EventsTailState {
    pub fn new() -> (s: Self)
        ensures
            s@ == (FollowSpec { pos: 0, leftover: Seq::empty(), inode: None }),
    {
        EventsTailState { pos: 0, leftover: Vec::new(), inode: None }
    }

    /// `events.log` could not be opened. A file that is missing is no failure:
    /// the state is kept through a rotation gap, so that the next open drains
    /// the rotated file, and is reset only if the file was never there.
    pub fn open_failed(&mut self, source: IoError) -> (outcome: PollOutcome)
        ensures
            source.kind == IoKind::NotFound ==> {
                &&& outcome is Continue
                &&& final(self)@ == if old(self)@.inode is None {
                    FollowSpec { pos: 0, leftover: Seq::empty(), inode: None }
                } else {
                    old(self)@
                }
            },
            source.kind != IoKind::NotFound ==> {
                &&& outcome matches PollOutcome::Fatal(e) && e@ == io_error(
                    "follow: open events"@,
                    source@,
                )
                &&& final(self)@ == old(self)@
            },
    {
        match source.kind {
            IoKind::NotFound => {
                if self.inode.is_none() {
                    self.pos = 0;
                    self.leftover = Vec::new();
                }
                PollOutcome::Continue
            },
            _ => PollOutcome::Fatal(Error::Io { context: "follow: open events", source }),
        }
    }

    /// `events.log` was opened and has length `len` and identity `inode`.
    pub fn opened(&mut self, len: u64, inode: u64) -> (step: PollStep)
        ensures
            match old(self)@.inode {
                Some(prev) if prev != inode => {
                    &&& step == (PollStep::DrainRotated {
                        prev_inode: prev,
                        prev_pos: old(self).pos,
                    })
                    &&& final(self)@ == old(self)@
                },
                _ => {
                    &&& final(self)@ == old(self)@.seen(len, inode)
                    &&& step == old(self)@.seen(len, inode).step(len)
                },
            },
    {
        if let Some(prev) = self.inode {
            if prev != inode {
                return PollStep::DrainRotated { prev_inode: prev, prev_pos: self.pos };
            }
        }
        if len < self.pos {
            self.pos = 0;
            self.leftover = Vec::new();
        }
        self.inode = Some(inode);
        if len == self.pos {
            PollStep::Idle
        } else {
            PollStep::Read { from: self.pos }
        }
    }

    /// The rotated file is drained; go on with the new `events.log`.
    pub fn after_rotation(&mut self, len: u64, inode: u64) -> (step: PollStep)
        ensures
            final(self)@ == FollowSpec::restarted(inode),
            step == FollowSpec::restarted(inode).step(len),
    {
        self.pos = 0;
        self.leftover = Vec::new();
        self.inode = Some(inode);
        if len == 0 {
            PollStep::Idle
        } else {
            PollStep::Read { from: 0 }
        }
    }

    /// `data` was read from the state's position on, out of a file of length
    /// `len`. Returns the entries that are complete now. An oversize rest
    /// without a terminator is garbage and is discarded.
    pub fn read(&mut self, len: u64, data: Vec<u8>) -> (out: Vec<LogEntry>)
        ensures
            records::entry_views(out@) == records::entries(old(self)@.leftover + data@),
            final(self)@ == (FollowSpec {
                pos: len as nat,
                leftover: old(self)@.leftover_after(data@),
                inode: old(self)@.inode,
            }),
    {
        let mut combined = Vec::new();
        combined.append(&mut self.leftover);
        assert(combined@ =~= old(self).leftover@);
        let mut data = data;
        combined.append(&mut data);
        self.pos = len;
        let bytes = outside::bytes_from_vec(combined);
        let (out, cursor) = records::scan_records(&bytes);
        let all = outside::bytes_as_slice(&bytes);
        let rest = vstd::slice::slice_subrange(all, cursor, all.len());
        assert(rest@ =~= all@.skip(cursor as int));
        let terminated = records::resync_offset(rest).is_some();
        if rest.len() > MAX_RECORD_BYTES && !terminated {
            self.leftover = Vec::new();
        } else {
            self.leftover = vstd::slice::slice_to_vec(rest);
        }
        out
    }
}

/// A file operation of a poll, behind opening the file.
#[derive(Debug, Clone, Copy, PartialEq, Eq, Structural)]
pub enum PollIo {
    Stat,
    Seek,
    Read,
    StatRotated,
    SeekRotated,
    ReadRotated,
}

/// What is said of a failed operation.
pub open spec fn poll_context(io: PollIo) -> Seq<char> {
    match io {
        PollIo::Stat => "follow: stat events"@,
        PollIo::Seek => "follow: seek events"@,
        PollIo::Read => "follow: read events"@,
        PollIo::StatRotated => "follow: stat rotated events"@,
        PollIo::SeekRotated => "follow: seek rotated events"@,
        PollIo::ReadRotated => "follow: read rotated events"@,
    }
}

/// A failed poll says which operation failed, and of which file.
pub proof fn law_poll_context(io: PollIo, source: crate::error::IoErrorSpec)
    ensures
        poll_context(PollIo::Stat) == "follow: stat events"@,
        poll_context(PollIo::Seek) == "follow: seek events"@,
        poll_context(PollIo::Read) == "follow: read events"@,
        poll_context(PollIo::StatRotated) == "follow: stat rotated events"@,
        poll_context(PollIo::SeekRotated) == "follow: seek rotated events"@,
        poll_context(PollIo::ReadRotated) == "follow: read rotated events"@,
        io_error(poll_context(io), source) == (crate::error::ErrorSpec::Io {
            context: poll_context(io),
            source,
        }),
{
}

/// A file operation of a poll failed.
pub fn poll_failed(io: PollIo, source: IoError) -> (outcome: PollOutcome)
    ensures
        outcome matches PollOutcome::Fatal(e) && e@ == io_error(poll_context(io), source@),
{
    let context: &'static str = match io {
        PollIo::Stat => "follow: stat events",
        PollIo::Seek => "follow: seek events",
        PollIo::Read => "follow: read events",
        PollIo::StatRotated => "follow: stat rotated events",
        PollIo::SeekRotated => "follow: seek rotated events",
        PollIo::ReadRotated => "follow: read rotated events",
    };
    PollOutcome::Fatal(Error::Io { context, source })
}

/// The rotated file could not be opened. Where it does not exist there is
/// nothing to drain.
pub fn rotated_open_failed(source: IoError) -> (outcome: PollOutcome)
    ensures
        source.kind == IoKind::NotFound ==> outcome is Continue,
        source.kind != IoKind::NotFound ==> (outcome matches PollOutcome::Fatal(e) && e@
            == io_error("follow: open rotated events"@, source@)),
{
    match source.kind {
        IoKind::NotFound => PollOutcome::Continue,
        _ => PollOutcome::Fatal(Error::Io { context: "follow: open rotated events", source }),
    }
}

/// How many bytes are drained from a rotated file that has length `end` and
/// identity `inode`: none if it is not the file that was being followed, or if
/// nothing was appended to it since.
pub open spec fn drain_len(prev_inode: u64, prev_pos: nat, inode: u64, end: nat) -> nat {
    if inode != prev_inode || end <= prev_pos {
        0
    } else if end - prev_pos <= ROTATED_DRAIN_MAX_BYTES {
        (end - prev_pos) as nat
    } else {
        ROTATED_DRAIN_MAX_BYTES as nat
    }
}

/// How many bytes to drain from a rotated file, if any.
pub fn rotated_drain(prev_inode: u64, prev_pos: u64, inode: u64, end: u64) -> (want: Option<u64>)
    ensures
        match want {
            Some(n) => n > 0 && n == drain_len(prev_inode, prev_pos as nat, inode, end as nat),
            None => drain_len(prev_inode, prev_pos as nat, inode, end as nat) == 0,
        },
{
    if inode != prev_inode || end <= prev_pos {
        return None;
    }
    let n: u64 = end - prev_pos;
    if n <= ROTATED_DRAIN_MAX_BYTES {
        Some(n)
    } else {
        Some(ROTATED_DRAIN_MAX_BYTES)
    }
}

/// The entries of what was drained from a rotated file. A partial record that
/// was held over is not put in front of it.
pub fn drain_rotated_remainder(data: Vec<u8>) -> (out: Vec<LogEntry>)
    ensures
        records::entry_views(out@) == records::entries(data@),
{
    records::parse_events_file(outside::bytes_from_vec(data))
}

/// Where the loop of a follower stands.
#[derive(Debug, Clone, Copy, PartialEq, Eq, Structural)]
pub enum FollowPhase {
    /// Poll `events.log`.
    Poll,
    /// Sleep until the next poll, or until the stop signal.
    Wait,
    /// Poll once more, so that events written between the stop signal and
    /// shutdown are still delivered.
    FinalPoll,
    Done,
}

/// The phase after a poll in `phase`, and whether its error goes to the
/// receiver.
pub open spec fn polled(phase: FollowPhase, outcome: PollOutcome) -> (FollowPhase, bool) {
    match phase {
        FollowPhase::Poll => match outcome {
            PollOutcome::Continue => (FollowPhase::Wait, false),
            PollOutcome::ReceiverDropped => (FollowPhase::Done, false),
            PollOutcome::Fatal(_) => (FollowPhase::Done, true),
        },
        FollowPhase::FinalPoll => (FollowPhase::Done, false),
        _ => (phase, false),
    }
}

/// Decides how a follower goes on after a poll.
pub fn after_poll(phase: FollowPhase, outcome: &PollOutcome) -> (next: (FollowPhase, bool))
    ensures
        next == polled(phase, *outcome),
{
    match phase {
        FollowPhase::Poll => match outcome {
            PollOutcome::Continue => (FollowPhase::Wait, false),
            PollOutcome::ReceiverDropped => (FollowPhase::Done, false),
            PollOutcome::Fatal(_) => (FollowPhase::Done, true),
        },
        FollowPhase::FinalPoll => (FollowPhase::Done, false),
        _ => (phase, false),
    }
}

/// Decides how a follower goes on after a sleep that the stop signal did or
/// did not cut short.
pub fn after_wait(stopped: bool) -> (next: FollowPhase)
    ensures
        next == if stopped {
            FollowPhase::FinalPoll
        } else {
            FollowPhase::Poll
        },
{
    if stopped {
        FollowPhase::FinalPoll
    } else {
        FollowPhase::Poll
    }
}

/// A follower reads on where it stopped whenever the file has grown, and starts
/// over on one that has shrunk; it remembers which file it saw.
pub proof fn law_follower_sees_growth(s: FollowSpec, len: u64, inode: u64)
    requires
        s.pos <= u64::MAX,
    ensures
        s.seen(len, inode).inode == Some(inode),
        len >= s.pos ==> s.seen(len, inode).pos == s.pos && s.seen(len, inode).leftover
            == s.leftover,
        len < s.pos ==> s.seen(len, inode).pos == 0 && s.seen(len, inode).leftover.len() == 0,
        s.step(len) == PollStep::Idle <==> len == s.pos,
        len != s.pos ==> s.step(len) == (PollStep::Read { from: s.pos as u64 }),
{
}

/// What a read leaves unread is kept for the next one, unless it is longer than
/// the longest record and holds no newline to go on from.
pub proof fn law_leftover(s: FollowSpec, data: Seq<u8>)
    ensures
        ({
            let rest = records::unread(s.leftover + data);
            let lost = rest.len() > 16_777_216 && !rest.contains(10u8);
            s.leftover_after(data) == if lost {
                Seq::<u8>::empty()
            } else {
                rest
            }
        }),
{
    let rest = records::unread(s.leftover + data);
    text::lemma_position(rest, 10u8);
    if text::position(rest, 10u8) is Some {
        assert(rest.contains(rest[text::position(rest, 10u8)->0]));
    }
}

/// What is drained from a rotated file is what was appended to it since, up to
/// sixteen mebibytes, and nothing of any other file.
pub proof fn law_drain_len(prev_inode: u64, prev_pos: nat, inode: u64, end: nat)
    ensures
        inode != prev_inode || end <= prev_pos ==> drain_len(prev_inode, prev_pos, inode, end)
            == 0,
        inode == prev_inode && prev_pos <= end <= prev_pos + 16_777_216 ==> drain_len(
            prev_inode,
            prev_pos,
            inode,
            end,
        ) == end - prev_pos,
        inode == prev_inode && end >= prev_pos + 16_777_216 ==> drain_len(
            prev_inode,
            prev_pos,
            inode,
            end,
        ) == 16_777_216,
{
}

/// A follower goes on after a poll until no one receives any more or the poll
/// failed for good; only such a failure is reported.
pub proof fn law_polled(e: Error, outcome: PollOutcome)
    ensures
        polled(FollowPhase::Poll, PollOutcome::Continue) == (FollowPhase::Wait, false),
        polled(FollowPhase::Poll, PollOutcome::ReceiverDropped) == (FollowPhase::Done, false),
        polled(FollowPhase::Poll, PollOutcome::Fatal(e)) == (FollowPhase::Done, true),
        polled(FollowPhase::FinalPoll, outcome) == (FollowPhase::Done, false),
{
}

/// Two polls that read a file up to its end deliver what one poll over the
/// whole of it delivers: a record that the first poll saw half of is neither
/// lost nor delivered twice.
pub proof fn law_split_reads(s: FollowSpec, a: Seq<u8>, b: Seq<u8>)
    requires
        records::unread(s.leftover + a).len() <= MAX_RECORD_BYTES,
    ensures
        ({
            let rest = s.leftover_after(a);
            &&& records::entries(s.leftover + (a + b)) == records::entries(s.leftover + a)
                + records::entries(rest + b)
            &&& s.leftover_after(a + b) == FollowSpec { leftover: rest, ..s }.leftover_after(b)
        }),
{
    records::law_incremental_parse(s.leftover + a, b);
    assert(s.leftover + (a + b) =~= s.leftover + a + b);
}

/// Whether a follower has taken in the first `pos` bytes of a file: what it
/// holds over is what they leave unread.
pub open spec fn in_step(s: FollowSpec, file: Seq<u8>) -> bool {
    s.pos <= file.len() && s.leftover == records::unread(file.take(s.pos as int))
}

/// A follower that reads a growing file bit by bit delivers exactly the file's
/// entries: each read delivers those that it completes, and leaves the
/// follower in step with the file.
pub proof fn law_follower_delivers_the_file(s: FollowSpec, file: Seq<u8>, len: nat)
    requires
        in_step(s, file),
        s.pos <= len <= file.len(),
        records::unread(file.take(len as int)).len() <= MAX_RECORD_BYTES,
    ensures
        ({
            let data = file.subrange(s.pos as int, len as int);
            let after = FollowSpec { pos: len, leftover: s.leftover_after(data), ..s };
            &&& records::entries(file.take(len as int)) == records::entries(
                file.take(s.pos as int),
            ) + records::entries(s.leftover + data)
            &&& in_step(after, file)
        }),
{
    let before = file.take(s.pos as int);
    let data = file.subrange(s.pos as int, len as int);
    assert(before + data =~= file.take(len as int));
    records::law_incremental_parse(before, data);
}

/// A follower loses nothing over a rotation, and delivers nothing twice: what it
/// drains from the rotated file, followed by what it reads of the new one, are
/// the entries of both files that it has not delivered before. The rotated file
/// is the one that it followed, with no partial record held over and a rest
/// within the cap of a drain; the new file is read up to `len`.
pub proof fn law_follower_crosses_a_rotation(
    s: FollowSpec,
    rotated: Seq<u8>,
    file: Seq<u8>,
    inode: u64,
    len: nat,
)
    requires
        s.inode is Some,
        in_step(s, rotated),
        s.leftover.len() == 0,
        rotated.len() - s.pos <= ROTATED_DRAIN_MAX_BYTES,
        len <= file.len(),
        records::unread(file.take(len as int)).len() <= MAX_RECORD_BYTES,
    ensures
        ({
            let want = drain_len(s.inode->0, s.pos, s.inode->0, rotated.len());
            let drained = rotated.subrange(s.pos as int, (s.pos + want) as int);
            let fresh = FollowSpec::restarted(inode);
            let data = file.take(len as int);
            let after = FollowSpec { pos: len, leftover: fresh.leftover_after(data), ..fresh };
            &&& records::entries(rotated.take(s.pos as int)) + records::entries(drained)
                + records::entries(fresh.leftover + data) == records::entries(rotated)
                + records::entries(file.take(len as int))
            &&& in_step(after, file)
        }),
{
    let before = rotated.take(s.pos as int);
    let rest = rotated.skip(s.pos as int);
    let want = drain_len(s.inode->0, s.pos, s.inode->0, rotated.len());
    assert(want == rest.len());
    assert(rotated.subrange(s.pos as int, (s.pos + want) as int) =~= rest);
    records::law_incremental_parse(before, rest);
    assert(before + rest =~= rotated);
    assert(records::unread(before) + rest =~= rest);
    let fresh = FollowSpec::restarted(inode);
    let data = file.take(len as int);
    assert(fresh.leftover + data =~= data);
    assert(file.take(0) =~= Seq::<u8>::empty());
    law_follower_delivers_the_file(fresh, file, len);
    assert(file.subrange(0, len as int) =~= data);
}

/// A follower that was stopped polls once more and then ends, whatever that
/// poll finds.
pub proof fn law_stop_drains_once(outcome: PollOutcome)
    ensures
        polled(FollowPhase::FinalPoll, outcome) == (FollowPhase::Done, false),
        polled(FollowPhase::Done, outcome).0 == FollowPhase::Done,
{
}

} // verus!
