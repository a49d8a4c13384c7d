//! What a client keeps running: port forwards and log tailers.
//!
//! A forward or a tailer is a background task. It is known here by a number,
//! its handle.

use dashmap::DashMap;
use vstd::prelude::*;

use crate::client;
use crate::client::Client;
use crate::error::{Error, Result};
use crate::task;
use crate::task::{DeleteOp, DeleteOpSpec, DeletePhase};
use crate::text;
use crate::util;

verus! {

/// The handles that a map holds, by key.
pub uninterp spec fn handles_in(m: dashmap::DashMap<String, u64>) -> Map<Seq<char>, u64>;

/// `dashmap::DashMap::new` makes an empty map.
#[verifier::external_body]
fn new_handles() -> (m: DashMap<String, u64>)
    ensures
        (handles_in(m) == Map::<Seq<char>, u64>::empty()),
{
    DashMap::new()
}

/// `dashmap::DashMap::insert` puts a value under a key and returns the one
/// whose place it took.
#[verifier::external_body]
fn put_handle(m: &mut DashMap<String, u64>, key: String, handle: u64) -> (replaced: Option<u64>)
    ensures
        handles_in(*final(m)) == handles_in(*old(m)).insert(key@, handle),
        replaced == found(handles_in(*old(m)), key@),
{
    m.insert(key, handle)
}

/// `dashmap::DashMap::remove` drops the entry under a key, if there is one, and
/// returns it.
#[verifier::external_body]
fn take_handle(m: &mut DashMap<String, u64>, key: &str) -> (taken: Option<u64>)
    ensures
        handles_in(*final(m)) == handles_in(*old(m)).remove(key@),
        taken == found(handles_in(*old(m)), key@),
{
    m.remove(key).map(|entry| entry.1)
}

/// What a map holds under a key.
pub open spec fn found(m: Map<Seq<char>, u64>, key: Seq<char>) -> Option<u64> {
    if m.dom().contains(key) {
        Some(m[key])
    } else {
        None
    }
}

/// A managed forward: the id of its container, and its handle.
pub type Forward = (Seq<char>, u64);

/// The handles of a container's forwards.
pub open spec fn forwards_of(forwards: Seq<Forward>, id: Seq<char>) -> Seq<u64> {
    forwards.filter(|f: Forward| f.0 == id).map_values(|f: Forward| f.1)
}

/// The forwards of all other containers.
pub open spec fn forwards_but(forwards: Seq<Forward>, id: Seq<char>) -> Seq<Forward> {
    forwards.filter(|f: Forward| f.0 != id)
}

pub open spec fn forward_views(list: Seq<(String, u64)>) -> Seq<Forward> {
    list.map_values(|f: (String, u64)| (f.0@, f.1))
}

/// The forwards and tailers that clients on one connection keep running.
pub struct ManagedHandles {
    forwards: Vec<(String, u64)>,
    tailers: DashMap<String, u64>,
}

impl ManagedHandles {
    /// The port forwards, in the order in which they were started.
    pub closed spec fn forwards(self) -> Seq<Forward> {
        forward_views(self.forwards@)
    }

    /// The log tailers, by `<namespace>/<container_id>`.
    pub closed spec fn tailers(self) -> Map<Seq<char>, u64> {
        handles_in(self.tailers)
    }

    pub fn new() -> (h: Self)
        ensures
            h.forwards() == Seq::<Forward>::empty(),
            h.tailers() == Map::<Seq<char>, u64>::empty(),
    {
        let h = ManagedHandles { forwards: Vec::new(), tailers: new_handles() };
        assert(h.forwards() =~= Seq::<Forward>::empty());
        h
    }

    /// Keeps a forward of a container.
    pub fn keep_forward(&mut self, container_id: &str, handle: u64)
        ensures
            final(self).forwards() == old(self).forwards().push((container_id@, handle)),
            final(self).tailers() == old(self).tailers(),
    {
        self.forwards.push((String::from_str(container_id), handle));
        assert(self.forwards() =~= old(self).forwards().push((container_id@, handle)));
    }

    /// Lets go of all forwards of a container, and returns those to stop.
    pub fn stop_managed_forwards(&mut self, container_id: &str) -> (stop: Vec<u64>)
        ensures
            stop@ == forwards_of(old(self).forwards(), container_id@),
            final(self).forwards() == forwards_but(old(self).forwards(), container_id@),
            final(self).tailers() == old(self).tailers(),
    {
        let mut stop: Vec<u64> = Vec::new();
        let mut kept: Vec<(String, u64)> = Vec::new();
        let ghost all = self.forwards();
        let n: usize = self.forwards.len();
        proof {
            reveal(Seq::filter);
            assert(stop@ =~= forwards_of(all.take(0), container_id@));
            assert(forward_views(kept@) =~= forwards_but(all.take(0), container_id@));
        }
        for i in 0..n
            invariant
                n == all.len(),
                *self == *old(self),
                all == forward_views(self.forwards@),
                stop@ == forwards_of(all.take(i as int), container_id@),
                forward_views(kept@) == forwards_but(all.take(i as int), container_id@),
        {
            let handle: u64 = self.forwards[i].1;
            let ghost stopped = stop@;
            let ghost before = kept@;
            assert(all.take(i + 1).drop_last() =~= all.take(i as int));
            assert(all.take(i + 1).last() == all[i as int]);
            if text::str_eq(self.forwards[i].0.as_str(), container_id) {
                stop.push(handle);
            } else {
                kept.push((self.forwards[i].0.clone(), handle));
                assert(forward_views(kept@) =~= forward_views(before).push(all[i as int]));
            }
            proof {
                reveal(Seq::filter);
                assert(forwards_of(all.take(i + 1), container_id@) =~= stop@);
            }
        }
        assert(all.take(n as int) =~= all);
        self.forwards = kept;
        stop
    }

    /// Keeps the tailer of a container, and returns the one to stop in its
    /// place: a container that is started again without a delete has one.
    pub fn keep_tailer(&mut self, client: &Client, container_id: &str, handle: u64) -> (stop: Option<
        u64,
    >)
        ensures
            stop == found(old(self).tailers(), client::key_in(client@, container_id@)),
            final(self).tailers() == old(self).tailers().insert(
                client::key_in(client@, container_id@),
                handle,
            ),
            final(self).forwards() == old(self).forwards(),
    {
        put_handle(&mut self.tailers, client.ns_key(container_id), handle)
    }

    /// Lets go of the tailer of a container, and returns it to be stopped.
    pub fn stop_managed_tailer(&mut self, client: &Client, container_id: &str) -> (stop: Option<u64>)
        ensures
            stop == found(old(self).tailers(), client::key_in(client@, container_id@)),
            final(self).tailers() == old(self).tailers().remove(
                client::key_in(client@, container_id@),
            ),
            final(self).forwards() == old(self).forwards(),
    {
        let key = client.ns_key(container_id);
        take_handle(&mut self.tailers, key.as_str())
    }
}

/// What is left to do after a delete: the handles to stop, and the result to
/// hand on.
#[derive(Debug)]
pub struct Deleted {
    pub forwards: Vec<u64>,
    pub tailer: Option<u64>,
    pub result: Result<()>,
}

impl Client {
    /// Takes in a finished delete. Whatever came of it, nothing is kept running
    /// for the container.
    pub fn delete_container(&self, handles: &mut ManagedHandles, op: DeleteOp) -> (done: Deleted)
        ensures
            match done.result {
                Ok(_) => op@.error is None,
                Err(e) => op@.error == Some(e@),
            },
            done.forwards@ == forwards_of(old(handles).forwards(), op@.container_id),
            done.tailer == found(
                old(handles).tailers(),
                client::key_in(self@, op@.container_id),
            ),
            final(handles).forwards() == forwards_but(old(handles).forwards(), op@.container_id),
            final(handles).tailers() == old(handles).tailers().remove(
                client::key_in(self@, op@.container_id),
            ),
    {
        let forwards = handles.stop_managed_forwards(op.container_id.as_str());
        let tailer = handles.stop_managed_tailer(self, op.container_id.as_str());
        Deleted { forwards, tailer, result: op.outcome() }
    }
}

/// Letting go of a container's forwards leaves none of it, and all those of
/// another container.
proof fn lemma_forwards_but(forwards: Seq<Forward>, id: Seq<char>, other: Seq<char>)
    ensures
        forwards_of(forwards_but(forwards, id), id) == Seq::<u64>::empty(),
        other != id ==> forwards_of(forwards_but(forwards, id), other) == forwards_of(
            forwards,
            other,
        ),
    decreases forwards.len(),
{
    reveal(Seq::filter);
    if forwards.len() > 0 {
        let front = forwards.drop_last();
        let last = forwards.last();
        lemma_forwards_but(front, id, other);
        let kept = forwards_but(front, id);
        if last.0 != id {
            let more = forwards_but(forwards, id);
            assert(more =~= kept.push(last));
            assert(more.drop_last() =~= kept);
            assert(forwards_of(more, id) =~= forwards_of(kept, id));
        }
        if last.0 == other {
            assert(forwards_of(forwards, other) =~= forwards_of(front, other).push(last.1));
            if other != id {
                let more = forwards_but(forwards, id);
                assert(forwards_of(more, other) =~= forwards_of(kept, other).push(last.1));
            }
        } else {
            assert(forwards_of(forwards, other) =~= forwards_of(front, other));
            if last.0 != id {
                let more = forwards_but(forwards, id);
                assert(forwards_of(more, other) =~= forwards_of(kept, other));
            }
        }
    } else {
        assert(forwards_of(forwards_but(forwards, id), id) =~= Seq::<u64>::empty());
    }
}

/// A forward is among those of its container, behind the earlier ones, and
/// among those of no other.
pub proof fn law_forwards_of(forwards: Seq<Forward>, id: Seq<char>, other: Seq<char>, handle: u64)
    ensures
        forwards_of(Seq::empty(), id) == Seq::<u64>::empty(),
        forwards_of(forwards.push((id, handle)), id) == forwards_of(forwards, id).push(handle),
        other != id ==> forwards_of(forwards.push((id, handle)), other) == forwards_of(
            forwards,
            other,
        ),
        forwards_but(forwards.push((id, handle)), id) == forwards_but(forwards, id),
        other != id ==> forwards_but(forwards.push((id, handle)), other) == forwards_but(
            forwards,
            other,
        ).push((id, handle)),
{
    reveal(Seq::filter);
    let more = forwards.push((id, handle));
    assert(more.drop_last() =~= forwards);
    assert(forwards_of(Seq::empty(), id) =~= Seq::<u64>::empty());
    assert(forwards_of(more, id) =~= forwards_of(forwards, id).push(handle));
    assert(other != id ==> forwards_of(more, other) =~= forwards_of(forwards, other));
}

/// A handle is found under the key that it was kept under, and under no other.
pub proof fn law_found(m: Map<Seq<char>, u64>, key: Seq<char>, other: Seq<char>, handle: u64)
    ensures
        found(m.insert(key, handle), key) == Some(handle),
        found(m.remove(key), key) is None,
        other != key ==> found(m.insert(key, handle), other) == found(m, other),
        other != key ==> found(m.remove(key), other) == found(m, other),
{
}

/// After a delete nothing is kept running for the container, and everything
/// for the others: the forwards of other ids, and the tailers of other ids and
/// of other namespaces.
pub proof fn law_delete_lets_go(
    forwards: Seq<Forward>,
    tailers: Map<Seq<char>, u64>,
    namespace: Seq<char>,
    id: Seq<char>,
    other_namespace: Seq<char>,
    other: Seq<char>,
)
    requires
        util::valid_identifier(text::utf8(id)),
        util::valid_identifier(text::utf8(other)),
    ensures
        forwards_of(forwards_but(forwards, id), id) == Seq::<u64>::empty(),
        other != id ==> forwards_of(forwards_but(forwards, id), other) == forwards_of(
            forwards,
            other,
        ),
        ({
            let key = client::key_in(namespace, id);
            let other_key = client::key_in(other_namespace, other);
            &&& found(tailers.remove(key), key) is None
            &&& other != id || other_namespace != namespace ==> found(
                tailers.remove(key),
                other_key,
            ) == found(tailers, other_key)
        }),
{
    lemma_forwards_but(forwards, id, other);
    if client::key_in(namespace, id) == client::key_in(other_namespace, other) {
        client::law_keys_are_distinct(namespace, id, other_namespace, other);
    }
}

/// Deleting a container that does not exist, so that a look at it fails with
/// `missing` and deleting its task counts as done, succeeds if it is in time.
/// Afterwards nothing is kept running for the container, and everything for
/// the others.
pub proof fn law_delete_of_missing(
    begin: DeleteOpSpec,
    rounds: Seq<task::Round>,
    missing: Error,
    forwards: Seq<Forward>,
    tailers: Map<Seq<char>, u64>,
    namespace: Seq<char>,
    other_namespace: Seq<char>,
    other: Seq<char>,
)
    requires
        begin.phase == DeletePhase::Stop,
        begin.error is None,
        util::valid_identifier(text::utf8(begin.container_id)),
        util::valid_identifier(text::utf8(other)),
        missing is ContainerNotFound,
        rounds.len() == 5,
        forall|i: int|
            0 <= i < rounds.len() ==> (#[trigger] rounds[i]).elapsed <= begin.timeout.nanos(),
        rounds[1].holds,
        rounds[2].holds == task::task_gone(Err(missing)).0,
        rounds[4].holds == task::record_gone(Err(missing)).0,
    ensures
        ({
            let op = begin.run(rounds);
            let id = begin.container_id;
            let key = client::key_in(namespace, id);
            let other_key = client::key_in(other_namespace, other);
            let left = forwards_but(forwards, op.container_id);
            let tailing = tailers.remove(client::key_in(namespace, op.container_id));
            &&& op.phase == DeletePhase::Finished
            &&& op.error is None
            &&& forwards_of(left, id) == Seq::<u64>::empty()
            &&& found(tailing, key) is None
            &&& other != id ==> forwards_of(left, other) == forwards_of(forwards, other)
            &&& other != id || other_namespace != namespace ==> found(tailing, other_key) == found(
                tailers,
                other_key,
            )
        }),
{
    task::law_delete_is_idempotent(begin, rounds, missing);
    law_delete_lets_go(
        forwards,
        tailers,
        namespace,
        begin.container_id,
        other_namespace,
        other,
    );
}

} // verus!
