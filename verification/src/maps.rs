//! Maps from strings to strings: labels and environment variables.

use vstd::prelude::*;

use crate::text;

verus! {

/// A key and its value.
pub type Pair = (Seq<char>, Seq<char>);

/// A map from strings to strings. Keys keep the order in which they were first
/// inserted.
#[derive(Debug)]
pub struct StringMap {
    entries: Vec<(String, String)>,
}

/// The index of a key.
pub open spec fn key_index(pairs: Seq<Pair>, key: Seq<char>) -> Option<int>
    decreases pairs.len(),
{
    if pairs.len() == 0 {
        None
    } else if pairs.last().0 == key {
        Some(pairs.len() - 1)
    } else {
        key_index(pairs.drop_last(), key)
    }
}

pub open spec fn distinct_keys(pairs: Seq<Pair>) -> bool {
    forall|i: int, j: int| 0 <= i < j < pairs.len() ==> (#[trigger] pairs[i]).0 != (
    #[trigger] pairs[j]).0
}

/// The map that a list of pairs spells out; a later pair overrides an earlier
/// one with the same key.
pub open spec fn as_map(pairs: Seq<Pair>) -> Map<Seq<char>, Seq<char>>
    decreases pairs.len(),
{
    if pairs.len() == 0 {
        Map::empty()
    } else {
        as_map(pairs.drop_last()).insert(pairs.last().0, pairs.last().1)
    }
}

/// `pairs` with `value` under `key`: in the place of an earlier value, or at
/// the end.
pub open spec fn inserted(pairs: Seq<Pair>, key: Seq<char>, value: Seq<char>) -> Seq<Pair> {
    match key_index(pairs, key) {
        Some(i) => pairs.update(i, (key, value)),
        None => pairs.push((key, value)),
    }
}

/// `pairs` with each pair of `more` inserted in turn.
pub open spec fn extended(pairs: Seq<Pair>, more: Seq<Pair>) -> Seq<Pair>
    decreases more.len(),
{
    if more.len() == 0 {
        pairs
    } else {
        inserted(extended(pairs, more.drop_last()), more.last().0, more.last().1)
    }
}

/// The pairs of a vector of string pairs.
pub open spec fn pair_views(list: Seq<(String, String)>) -> Seq<Pair> {
    list.map_values(|p: (String, String)| (p.0@, p.1@))
}

/// The pairs of a list of string slices.
pub open spec fn slice_pairs(list: Seq<(&str, &str)>) -> Seq<Pair> {
    list.map_values(|p: (&str, &str)| (p.0@, p.1@))
}

pub proof fn lemma_key_index(pairs: Seq<Pair>, key: Seq<char>)
    ensures
        match key_index(pairs, key) {
            Some(i) => 0 <= i < pairs.len() && pairs[i].0 == key && as_map(pairs).dom().contains(
                key,
            ) && as_map(pairs)[key] == pairs[i].1,
            None => !as_map(pairs).dom().contains(key) && forall|i: int|
                0 <= i < pairs.len() ==> (#[trigger] pairs[i]).0 != key,
        },
    decreases pairs.len(),
{
    if pairs.len() > 0 {
        let front = pairs.drop_last();
        lemma_key_index(front, key);
        if pairs.last().0 != key {
            match key_index(front, key) {
                Some(i) => {
                    assert(pairs[i] == front[i]);
                },
                None => {
                    assert forall|i: int| 0 <= i < pairs.len() implies (#[trigger] pairs[i]).0
                        != key by {
                        if i < front.len() {
                            assert(pairs[i] == front[i]);
                        }
                    }
                },
            }
        }
    }
}

/// Inserting keeps keys distinct and inserts into the map.
pub proof fn lemma_inserted(pairs: Seq<Pair>, key: Seq<char>, value: Seq<char>)
    requires
        distinct_keys(pairs),
    ensures
        distinct_keys(inserted(pairs, key, value)),
        as_map(inserted(pairs, key, value)) == as_map(pairs).insert(key, value),
{
    lemma_key_index(pairs, key);
    match key_index(pairs, key) {
        Some(i) => {
            lemma_update(pairs, i, value);
        },
        None => {
            let more = pairs.push((key, value));
            assert(more.drop_last() =~= pairs);
        },
    }
}

proof fn lemma_update(pairs: Seq<Pair>, i: int, value: Seq<char>)
    requires
        0 <= i < pairs.len(),
        distinct_keys(pairs),
    ensures
        distinct_keys(pairs.update(i, (pairs[i].0, value))),
        as_map(pairs.update(i, (pairs[i].0, value))) == as_map(pairs).insert(pairs[i].0, value),
    decreases pairs.len(),
{
    let key = pairs[i].0;
    let changed = pairs.update(i, (key, value));
    let front = pairs.drop_last();
    assert(distinct_keys(front)) by {
        assert forall|a: int, b: int| 0 <= a < b < front.len() implies (#[trigger] front[a]).0 != (
        #[trigger] front[b]).0 by {
            assert(pairs[a].0 != pairs[b].0);
        }
    }
    if i == pairs.len() - 1 {
        assert(changed.drop_last() =~= front);
        assert(as_map(changed) =~= as_map(pairs).insert(key, value));
    } else {
        assert(front[i] == pairs[i]);
        lemma_update(front, i, value);
        assert(changed.drop_last() =~= front.update(i, (key, value)));
        assert(pairs[i].0 != pairs[pairs.len() - 1].0);
        assert(as_map(changed) =~= as_map(pairs).insert(key, value));
    }
}

/// Extending keeps keys distinct; what is added overrides what was there.
pub proof fn lemma_extended(pairs: Seq<Pair>, more: Seq<Pair>)
    requires
        distinct_keys(pairs),
    ensures
        distinct_keys(extended(pairs, more)),
        as_map(extended(pairs, more)) == as_map(pairs).union_prefer_right(as_map(more)),
    decreases more.len(),
{
    if more.len() == 0 {
        assert(as_map(pairs).union_prefer_right(as_map(more)) =~= as_map(pairs));
    } else {
        lemma_extended(pairs, more.drop_last());
        lemma_inserted(extended(pairs, more.drop_last()), more.last().0, more.last().1);
        assert(as_map(extended(pairs, more)) =~= as_map(pairs).union_prefer_right(as_map(more)));
    }
}

/// Leaving out pairs by their key leaves those keys out of the map, and no
/// others.
pub proof fn lemma_as_map_filter(
    pairs: Seq<Pair>,
    keep: spec_fn(Pair) -> bool,
    kept: bool,
    k: Seq<char>,
)
    requires
        forall|v: Seq<char>| #[trigger] keep((k, v)) == kept,
    ensures
        as_map(pairs.filter(keep)).dom().contains(k) <==> as_map(pairs).dom().contains(k) && kept,
        as_map(pairs.filter(keep)).dom().contains(k) ==> as_map(pairs.filter(keep))[k] == as_map(
            pairs,
        )[k],
    decreases pairs.len(),
{
    reveal(Seq::filter);
    if pairs.len() > 0 {
        let front = pairs.drop_last();
        lemma_as_map_filter(front, keep, kept, k);
        let last = pairs.last();
        if last.0 == k {
            assert(keep((k, last.1)) == kept);
        }
        if keep(last) {
            let more = front.filter(keep).push(last);
            assert(pairs.filter(keep) =~= more);
            assert(more.drop_last() =~= front.filter(keep));
        } else {
            assert(pairs.filter(keep) =~= front.filter(keep));
        }
    }
}

/// Inserting pairs with distinct keys into an empty list gives them back.
pub proof fn lemma_extended_empty(pairs: Seq<Pair>)
    requires
        distinct_keys(pairs),
    ensures
        extended(Seq::empty(), pairs) == pairs,
    decreases pairs.len(),
{
    if pairs.len() == 0 {
        assert(extended(Seq::empty(), pairs) =~= pairs);
    } else {
        let front = pairs.drop_last();
        assert forall|a: int, b: int| 0 <= a < b < front.len() implies (#[trigger] front[a]).0 != (
        #[trigger] front[b]).0 by {
            assert(pairs[a].0 != pairs[b].0);
        }
        lemma_extended_empty(front);
        lemma_key_index(front, pairs.last().0);
        match key_index(front, pairs.last().0) {
            Some(i) => {
                assert(pairs[i].0 != pairs[pairs.len() - 1].0);
            },
            None => {},
        }
        assert(front.push(pairs.last()) =~= pairs);
    }
}

/// Removing a pair removes its key.
proof fn lemma_removed(pairs: Seq<Pair>, i: int)
    requires
        0 <= i < pairs.len(),
        distinct_keys(pairs),
    ensures
        distinct_keys(pairs.remove(i)),
        as_map(pairs.remove(i)) == as_map(pairs).remove(pairs[i].0),
    decreases pairs.len(),
{
    let key = pairs[i].0;
    let less = pairs.remove(i);
    let front = pairs.drop_last();
    assert(distinct_keys(front)) by {
        assert forall|a: int, b: int| 0 <= a < b < front.len() implies (#[trigger] front[a]).0 != (
        #[trigger] front[b]).0 by {
            assert(pairs[a].0 != pairs[b].0);
        }
    }
    if i == pairs.len() - 1 {
        assert(less =~= front);
        lemma_key_index(front, key);
        match key_index(front, key) {
            Some(k) => {
                assert(pairs[k].0 != pairs[i].0);
            },
            None => {},
        }
        assert(as_map(less) =~= as_map(pairs).remove(key));
    } else {
        assert(front[i] == pairs[i]);
        lemma_removed(front, i);
        assert(less.drop_last() =~= front.remove(i));
        assert(less.last() == pairs.last());
        assert(pairs[i].0 != pairs[pairs.len() - 1].0);
        assert(as_map(less) =~= as_map(pairs).remove(key));
        assert forall|a: int, b: int| 0 <= a < b < less.len() implies (#[trigger] less[a]).0 != (
        #[trigger] less[b]).0 by {
            let a2 = if a < i {
                a
            } else {
                a + 1
            };
            let b2 = if b < i {
                b
            } else {
                b + 1
            };
            assert(less[a] == pairs[a2] && less[b] == pairs[b2]);
        }
    }
}

/// A map holds under a key the last value that was put there. Inserting puts one
/// value there and changes nothing else; extending by more pairs lets those win
/// and keeps the rest.
pub proof fn law_maps(pairs: Seq<Pair>, more: Seq<Pair>, key: Seq<char>, value: Seq<char>)
    requires
        distinct_keys(pairs),
    ensures
        as_map(Seq::empty()) == Map::<Seq<char>, Seq<char>>::empty(),
        as_map(pairs.push((key, value))) == as_map(pairs).insert(key, value),
        as_map(inserted(pairs, key, value)) == as_map(pairs).insert(key, value),
        as_map(extended(pairs, more)) == as_map(pairs).union_prefer_right(as_map(more)),
{
    assert(pairs.push((key, value)).drop_last() =~= pairs);
    lemma_inserted(pairs, key, value);
    lemma_extended(pairs, more);
}

impl View for StringMap {
    type V = Map<Seq<char>, Seq<char>>;

    open spec fn view(&self) -> Map<Seq<char>, Seq<char>> {
        as_map(self.pairs())
    }
}

impl StringMap {
    #[verifier::type_invariant]
    spec fn keys_are_distinct(self) -> bool {
        distinct_keys(pair_views(self.entries@))
    }

    /// The pairs of the map, in the order of their keys.
    pub closed spec fn pairs(self) -> Seq<Pair> {
        pair_views(self.entries@)
    }

    pub fn new() -> (m: Self)
        ensures
            m.pairs() == Seq::<Pair>::empty(),
            m@ == Map::<Seq<char>, Seq<char>>::empty(),
    {
        let m = StringMap { entries: Vec::new() };
        assert(m.pairs() =~= Seq::<Pair>::empty());
        m
    }

    pub fn len(&self) -> (n: usize)
        ensures
            n == self.pairs().len(),
            distinct_keys(self.pairs()),
    {
        proof {
            use_type_invariant(self);
        }
        self.entries.len()
    }

    pub fn is_empty(&self) -> (empty: bool)
        ensures
            empty == (self.pairs().len() == 0),
    {
        self.entries.len() == 0
    }

    /// The `i`-th key.
    pub fn key(&self, i: usize) -> (k: &String)
        requires
            i < self.pairs().len(),
        ensures
            k@ == self.pairs()[i as int].0,
    {
        &self.entries[i].0
    }

    /// The `i`-th value.
    pub fn value(&self, i: usize) -> (v: &String)
        requires
            i < self.pairs().len(),
        ensures
            v@ == self.pairs()[i as int].1,
    {
        &self.entries[i].1
    }

    fn find(&self, key: &str) -> (at: Option<usize>)
        ensures
            match at {
                Some(i) => key_index(self.pairs(), key@) == Some(i as int) && i
                    < self.entries@.len(),
                None => key_index(self.pairs(), key@) is None,
            },
    {
        let ghost all = self.pairs();
        let mut i: usize = self.entries.len();
        assert(all.take(i as int) =~= all);
        while i > 0
            invariant
                i <= self.entries@.len(),
                all == pair_views(self.entries@),
                key_index(all.take(i as int), key@) == key_index(all, key@),
            decreases i,
        {
            assert(all.take(i as int).drop_last() =~= all.take(i - 1));
            assert(all.take(i as int).last() == all[i - 1]);
            if text::str_eq(self.entries[i - 1].0.as_str(), key) {
                return Some(i - 1);
            }
            i = i - 1;
        }
        None
    }

    pub fn get(&self, key: &str) -> (v: Option<&String>)
        ensures
            match v {
                Some(s) => self@.dom().contains(key@) && self@[key@] == s@,
                None => !self@.dom().contains(key@),
            },
    {
        proof {
            lemma_key_index(self.pairs(), key@);
        }
        match self.find(key) {
            Some(i) => Some(&self.entries[i].1),
            None => None,
        }
    }

    pub fn contains_key(&self, key: &str) -> (found: bool)
        ensures
            found == self@.dom().contains(key@),
    {
        proof {
            lemma_key_index(self.pairs(), key@);
        }
        self.find(key).is_some()
    }

    pub fn insert(&mut self, key: String, value: String)
        ensures
            final(self).pairs() == inserted(old(self).pairs(), key@, value@),
            final(self)@ == old(self)@.insert(key@, value@),
    {
        proof {
            use_type_invariant(&*self);
            lemma_inserted(self.pairs(), key@, value@);
        }
        let at = self.find(key.as_str());
        let mut entries: Vec<(String, String)> = Vec::new();
        std::mem::swap(&mut entries, &mut self.entries);
        let ghost before = entries@;
        let ghost pair = (key, value);
        match at {
            Some(i) => {
                proof {
                    lemma_key_index(pair_views(before), key@);
                }
                entries.set(i, (key, value));
                assert(pair_views(entries@) =~= pair_views(before).update(
                    i as int,
                    (pair.0@, pair.1@),
                ));
            },
            None => {
                entries.push((key, value));
                assert(pair_views(entries@) =~= pair_views(before).push((pair.0@, pair.1@)));
            },
        }
        self.entries = entries;
    }

    pub fn remove(&mut self, key: &str)
        ensures
            final(self)@ == old(self)@.remove(key@),
            final(self).pairs() == match key_index(old(self).pairs(), key@) {
                Some(i) => old(self).pairs().remove(i),
                None => old(self).pairs(),
            },
    {
        proof {
            use_type_invariant(&*self);
            lemma_key_index(self.pairs(), key@);
        }
        let at = self.find(key);
        match at {
            Some(i) => {
                proof {
                    lemma_removed(self.pairs(), i as int);
                }
                let mut entries: Vec<(String, String)> = Vec::new();
                std::mem::swap(&mut entries, &mut self.entries);
                let ghost before = entries@;
                let _gone = entries.remove(i);
                assert(pair_views(entries@) =~= pair_views(before).remove(i as int));
                self.entries = entries;
            },
            None => {
                assert(self@.remove(key@) =~= self@);
            },
        }
    }

    /// Inserts every pair of `other`.
    pub fn extend(&mut self, other: &StringMap)
        ensures
            final(self).pairs() == extended(old(self).pairs(), other.pairs()),
            final(self)@ == old(self)@.union_prefer_right(other@),
    {
        proof {
            use_type_invariant(&*self);
            lemma_extended(self.pairs(), other.pairs());
        }
        let n: usize = other.len();
        let ghost more = other.pairs();
        let ghost start = self.pairs();
        assert(more.take(0) =~= Seq::<Pair>::empty());
        for i in 0..n
            invariant
                n == more.len(),
                more == other.pairs(),
                self.pairs() == extended(start, more.take(i as int)),
        {
            assert(more.take(i + 1).drop_last() =~= more.take(i as int));
            self.insert(other.key(i).clone(), other.value(i).clone());
        }
        assert(more.take(n as int) =~= more);
    }

    /// The map that inserts `pairs` in turn.
    pub fn from_pairs(pairs: &[(&str, &str)]) -> (m: Self)
        ensures
            m.pairs() == extended(Seq::empty(), slice_pairs(pairs@)),
            m@ == as_map(slice_pairs(pairs@)),
    {
        let mut m = StringMap::new();
        let n: usize = pairs.len();
        let ghost more = slice_pairs(pairs@);
        assert(more.take(0) =~= Seq::<Pair>::empty());
        for i in 0..n
            invariant
                n == more.len(),
                more == slice_pairs(pairs@),
                n == pairs@.len(),
                m.pairs() == extended(Seq::empty(), more.take(i as int)),
        {
            assert(more.take(i + 1).drop_last() =~= more.take(i as int));
            let (k, v) = pairs[i];
            m.insert(k.to_string(), v.to_string());
        }
        assert(more.take(n as int) =~= more);
        proof {
            lemma_extended(Seq::empty(), more);
            assert(Map::<Seq<char>, Seq<char>>::empty().union_prefer_right(as_map(more))
                =~= as_map(more));
        }
        m
    }
}

impl Clone for StringMap {
    fn clone(&self) -> (m: Self)
        ensures
            m.pairs() == self.pairs(),
            m@ == self@,
    {
        proof {
            use_type_invariant(self);
        }
        let mut entries: Vec<(String, String)> = Vec::new();
        let n: usize = self.entries.len();
        for i in 0..n
            invariant
                n == self.entries@.len(),
                entries@ == self.entries@.take(i as int),
        {
            let k = self.entries[i].0.clone();
            let v = self.entries[i].1.clone();
            entries.push((k, v));
            assert(entries@ =~= self.entries@.take(i + 1));
        }
        assert(entries@ =~= self.entries@);
        StringMap { entries }
    }
}

impl Default for StringMap {
    fn default() -> (m: Self)
        ensures
            m.pairs() == Seq::<Pair>::empty(),
            m@ == Map::<Seq<char>, Seq<char>>::empty(),
    {
        StringMap::new()
    }
}

} // verus!
