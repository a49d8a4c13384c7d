//! What cloning, snapshotting and restoring share.

use vstd::prelude::*;

use crate::consts::{BRIDGE_IP_LABEL, NETWORK_MODE_LABEL, PORT_BINDING_LABEL_PREFIX};
use crate::container::NetworkMode;
use crate::error::{Error, ErrorSpec, Status, StatusSpec};
use crate::maps;
use crate::maps::StringMap;
use crate::text;

verus! {

/// Whether a label is one that this crate decides on: network mode, bridge
/// address, port binding.
pub open spec fn managed(key: Seq<char>) -> bool {
    ||| key == NETWORK_MODE_LABEL@
    ||| key == BRIDGE_IP_LABEL@
    ||| PORT_BINDING_LABEL_PREFIX@.is_prefix_of(key)
}

pub fn is_managed_label(key: &str) -> (yes: bool)
    ensures
        yes == managed(key@),
{
    text::str_eq(key, NETWORK_MODE_LABEL) || text::str_eq(key, BRIDGE_IP_LABEL)
        || text::strip_prefix(key, PORT_BINDING_LABEL_PREFIX).is_some()
}

/// The network mode that labels record; bridge if they record none.
pub open spec fn recorded_mode(labels: Map<Seq<char>, Seq<char>>) -> NetworkMode {
    if !labels.dom().contains(NETWORK_MODE_LABEL@) {
        NetworkMode::Bridge
    } else if labels[NETWORK_MODE_LABEL@] == "host"@ {
        NetworkMode::Host
    } else if labels[NETWORK_MODE_LABEL@] == "isolated"@ {
        NetworkMode::Isolated
    } else {
        NetworkMode::Bridge
    }
}

pub fn network_from_labels(labels: &StringMap) -> (mode: NetworkMode)
    ensures
        mode == recorded_mode(labels@),
{
    match labels.get(NETWORK_MODE_LABEL) {
        Some(v) => {
            if text::str_eq(v.as_str(), "host") {
                NetworkMode::Host
            } else if text::str_eq(v.as_str(), "isolated") {
                NetworkMode::Isolated
            } else {
                NetworkMode::Bridge
            }
        },
        None => NetworkMode::Bridge,
    }
}

/// A recorded network mode is read back.
pub proof fn law_mode_round_trip(labels: Map<Seq<char>, Seq<char>>, mode: NetworkMode)
    ensures
        recorded_mode(
            labels.insert(NETWORK_MODE_LABEL@, crate::container::mode_label(mode)),
        ) == mode,
{
    reveal_strlit("bridge");
    reveal_strlit("host");
    reveal_strlit("isolated");
    assert("bridge"@.len() == 6 && "host"@.len() == 4 && "isolated"@.len() == 8);
}

/// The pairs whose label is not managed.
pub open spec fn unmanaged(pairs: Seq<maps::Pair>) -> Seq<maps::Pair> {
    pairs.filter(|p: maps::Pair| !managed(p.0))
}

/// The labels that are not managed, as a map.
pub open spec fn without_managed(labels: Map<Seq<char>, Seq<char>>) -> Map<Seq<char>, Seq<char>> {
    labels.remove_keys(Set::new(|key: Seq<char>| managed(key)))
}

pub proof fn lemma_unmanaged(pairs: Seq<maps::Pair>)
    ensures
        maps::as_map(unmanaged(pairs)) == without_managed(maps::as_map(pairs)),
{
    let keep = |p: maps::Pair| !managed(p.0);
    let kept = maps::as_map(unmanaged(pairs));
    let want = without_managed(maps::as_map(pairs));
    assert forall|k: Seq<char>|
        {
            &&& #[trigger] kept.dom().contains(k) <==> want.dom().contains(k)
            &&& kept.dom().contains(k) ==> kept[k] == want[k]
        } by {
        maps::lemma_as_map_filter(pairs, keep, !managed(k), k);
    }
    assert(kept =~= want);
}

/// The labels that a clone does not copy and may not override are the network
/// mode, the bridge address and the port bindings.
pub proof fn law_managed_labels(key: Seq<char>)
    ensures
        managed(key) <==> key == "containerd-manager.network.mode"@ || key
            == "containerd-manager.bridge.ip"@ || "containerd-manager.port."@.is_prefix_of(key),
{
}

/// Labels record host or isolated mode exactly if they say so; any other value,
/// or none, means bridge mode.
pub proof fn law_recorded_mode(labels: Map<Seq<char>, Seq<char>>)
    ensures
        ({
            let key = "containerd-manager.network.mode"@;
            let says = |mode: Seq<char>| labels.dom().contains(key) && labels[key] == mode;
            &&& recorded_mode(labels) == NetworkMode::Host <==> says("host"@)
            &&& recorded_mode(labels) == NetworkMode::Isolated <==> says("isolated"@)
            &&& recorded_mode(labels) == NetworkMode::Bridge <==> !says("host"@) && !says(
                "isolated"@,
            )
        }),
{
    reveal_strlit("host");
    reveal_strlit("isolated");
    assert("host"@.len() != "isolated"@.len());
}

/// Copies the labels that are not managed.
pub fn copy_unmanaged(labels: &StringMap, into: &mut StringMap)
    ensures
        final(into).pairs() == maps::extended(old(into).pairs(), unmanaged(labels.pairs())),
{
    let ghost start = into.pairs();
    let ghost all = labels.pairs();
    let ghost keep = |p: maps::Pair| !managed(p.0);
    let n: usize = labels.len();
    assert(all.take(0).filter(keep) =~= Seq::<maps::Pair>::empty()) by {
        reveal(Seq::filter);
    }
    for i in 0..n
        invariant
            n == all.len(),
            all == labels.pairs(),
            keep == (|p: maps::Pair| !managed(p.0)),
            into.pairs() == maps::extended(start, all.take(i as int).filter(keep)),
    {
        proof {
            reveal(Seq::filter);
        }
        assert(all.take(i + 1).drop_last() =~= all.take(i as int));
        assert(all.take(i + 1).last() == all[i as int]);
        if !is_managed_label(labels.key(i).as_str()) {
            proof {
                let more = all.take(i + 1).filter(keep);
                assert(more.drop_last() =~= all.take(i as int).filter(keep));
                assert(more.last() == all[i as int]);
            }
            into.insert(labels.key(i).clone(), labels.value(i).clone());
        }
    }
    assert(all.take(n as int) =~= all);
}

/// What came of a step of an operation.
#[derive(Debug)]
pub enum StepEvent {
    /// The container was inspected; `running` says whether its task runs.
    Seen { running: bool },
    Done,
    /// Containerd refused.
    Refused(Status),
    Failed(Error),
}

#[verifier::ext_equal]
pub enum StepEventSpec {
    Seen { running: bool },
    Done,
    Refused(StatusSpec),
    Failed(ErrorSpec),
}

impl View for StepEvent {
    type V = StepEventSpec;

    open spec fn view(&self) -> StepEventSpec {
        match *self {
            StepEvent::Seen { running } => StepEventSpec::Seen { running },
            StepEvent::Done => StepEventSpec::Done,
            StepEvent::Refused(s) => StepEventSpec::Refused(s@),
            StepEvent::Failed(e) => StepEventSpec::Failed(e@),
        }
    }
}

impl StepEventSpec {
    /// Whether the step went well.
    pub open spec fn ok(self) -> bool {
        self is Seen || self is Done
    }

    /// The error of a step, where a refusal is reported as the failure of
    /// `op`.
    pub open spec fn error(self, op: Seq<char>) -> ErrorSpec {
        match self {
            StepEventSpec::Failed(e) => e,
            StepEventSpec::Refused(s) => ErrorSpec::Containerd { op, source: s },
            _ => ErrorSpec::NotImplemented,
        }
    }

    /// The code of a refusal.
    pub open spec fn code(self) -> Option<crate::error::Code> {
        match self {
            StepEventSpec::Refused(s) => Some(s.code),
            _ => None,
        }
    }
}

impl StepEvent {
    pub fn is_ok(&self) -> (ok: bool)
        ensures
            ok == self@.ok(),
    {
        match self {
            StepEvent::Seen { .. } => true,
            StepEvent::Done => true,
            _ => false,
        }
    }

    pub fn refusal(&self) -> (code: Option<crate::error::Code>)
        ensures
            code == self@.code(),
    {
        match self {
            StepEvent::Refused(s) => Some(s.code),
            _ => None,
        }
    }

    pub fn into_error(self, op: &'static str) -> (e: Error)
        ensures
            e@ == self@.error(op@),
    {
        match self {
            StepEvent::Failed(e) => e,
            StepEvent::Refused(s) => Error::Containerd { op, source: s },
            _ => Error::NotImplemented,
        }
    }
}

/// A call to the snapshotter.
#[derive(Debug)]
pub enum SnapshotCall {
    /// Look a snapshot up.
    Stat { snapshotter: String, key: String },
    /// Freeze the writable layer `key` into the snapshot `name`.
    Commit { snapshotter: String, name: String, key: String, labels: StringMap },
    /// Make the writable layer `key`, without labels, on top of `parent`.
    Prepare { snapshotter: String, key: String, parent: String },
    /// Remove a snapshot or a writable layer.
    Remove { snapshotter: String, key: String },
}

#[verifier::ext_equal]
pub enum SnapshotCallSpec {
    Stat { snapshotter: Seq<char>, key: Seq<char> },
    Commit {
        snapshotter: Seq<char>,
        name: Seq<char>,
        key: Seq<char>,
        labels: Map<Seq<char>, Seq<char>>,
    },
    Prepare { snapshotter: Seq<char>, key: Seq<char>, parent: Seq<char> },
    Remove { snapshotter: Seq<char>, key: Seq<char> },
}

impl View for SnapshotCall {
    type V = SnapshotCallSpec;

    open spec fn view(&self) -> SnapshotCallSpec {
        match *self {
            SnapshotCall::Stat { snapshotter, key } => SnapshotCallSpec::Stat {
                snapshotter: snapshotter@,
                key: key@,
            },
            SnapshotCall::Commit { snapshotter, name, key, labels } => SnapshotCallSpec::Commit {
                snapshotter: snapshotter@,
                name: name@,
                key: key@,
                labels: labels@,
            },
            SnapshotCall::Prepare { snapshotter, key, parent } => SnapshotCallSpec::Prepare {
                snapshotter: snapshotter@,
                key: key@,
                parent: parent@,
            },
            SnapshotCall::Remove { snapshotter, key } => SnapshotCallSpec::Remove {
                snapshotter: snapshotter@,
                key: key@,
            },
        }
    }
}

/// An optional call, by what it says.
pub open spec fn opt_call(call: Option<SnapshotCall>) -> Option<SnapshotCallSpec> {
    match call {
        Some(c) => Some(c@),
        None => None,
    }
}

impl SnapshotCall {
    pub fn stat(snapshotter: &str, key: &str) -> (call: Self)
        ensures
            call@ == (SnapshotCallSpec::Stat { snapshotter: snapshotter@, key: key@ }),
    {
        SnapshotCall::Stat {
            snapshotter: String::from_str(snapshotter),
            key: String::from_str(key),
        }
    }

    pub fn commit(snapshotter: &str, name: &str, key: &str, labels: StringMap) -> (call: Self)
        ensures
            call@ == (SnapshotCallSpec::Commit {
                snapshotter: snapshotter@,
                name: name@,
                key: key@,
                labels: labels@,
            }),
    {
        SnapshotCall::Commit {
            snapshotter: String::from_str(snapshotter),
            name: String::from_str(name),
            key: String::from_str(key),
            labels,
        }
    }

    pub fn prepare(snapshotter: &str, key: &str, parent: &str) -> (call: Self)
        ensures
            call@ == (SnapshotCallSpec::Prepare {
                snapshotter: snapshotter@,
                key: key@,
                parent: parent@,
            }),
    {
        SnapshotCall::Prepare {
            snapshotter: String::from_str(snapshotter),
            key: String::from_str(key),
            parent: String::from_str(parent),
        }
    }

    pub fn remove(snapshotter: &str, key: &str) -> (call: Self)
        ensures
            call@ == (SnapshotCallSpec::Remove { snapshotter: snapshotter@, key: key@ }),
    {
        SnapshotCall::Remove {
            snapshotter: String::from_str(snapshotter),
            key: String::from_str(key),
        }
    }
}

} // verus!
