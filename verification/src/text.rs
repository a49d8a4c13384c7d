//! Text primitives: comparing, searching, splitting and joining.
//!
//! Contracts speak of a string through its characters (`s@`) or, where the
//! syntax is byte-oriented, through its UTF-8 bytes (`utf8(s@)`).

use vstd::prelude::*;

verus! {

broadcast use vstd::seq_lib::group_seq_properties;

/// `String::push` appends one character at the end of the string.
pub assume_specification[ String::push ](s: &mut String, c: char)
    ensures
        final(s)@ == old(s)@.push(c),
;

/// The UTF-8 bytes of a string with the given characters.
pub open spec fn utf8(chars: Seq<char>) -> Seq<u8> {
    vstd::utf8::encode_utf8(chars)
}

/// The characters of each string of a list.
pub open spec fn texts(list: Seq<String>) -> Seq<Seq<char>> {
    list.map_values(|s: String| s@)
}

/// Appending a string appends its characters.
pub proof fn lemma_texts_push(list: Seq<String>, s: String)
    ensures
        texts(list.push(s)) == texts(list).push(s@),
{
    assert(texts(list.push(s)) =~= texts(list).push(s@));
}

/// The characters of each string slice of a list.
pub open spec fn slices(list: Seq<&str>) -> Seq<Seq<char>> {
    list.map_values(|s: &str| s@)
}

/// Index of the first occurrence of `x` in `s`.
pub open spec fn position<T>(s: Seq<T>, x: T) -> Option<int>
    decreases s.len(),
{
    if s.len() == 0 {
        None
    } else if s[0] == x {
        Some(0)
    } else {
        match position(s.drop_first(), x) {
            Some(i) => Some(i + 1),
            None => None,
        }
    }
}

/// `position` finds `x` exactly where it occurs for the first time.
pub proof fn lemma_position<T>(s: Seq<T>, x: T)
    ensures
        position(s, x) matches Some(i) ==> {
            &&& 0 <= i < s.len()
            &&& s[i] == x
            &&& forall|j: int| 0 <= j < i ==> s[j] != x
        },
        position(s, x) is None ==> forall|j: int| 0 <= j < s.len() ==> s[j] != x,
    decreases s.len(),
{
    if s.len() > 0 && s[0] != x {
        let t = s.drop_first();
        lemma_position(t, x);
        assert forall|j: int| 0 < j < s.len() implies s[j] == t[j - 1] by {}
        match position(t, x) {
            Some(i) => {
                assert(s[i + 1] == t[i]);
                assert forall|j: int| 0 <= j < i + 1 implies s[j] != x by {
                    if j > 0 {
                        assert(s[j] == t[j - 1]);
                    }
                }
            },
            None => {
                assert forall|j: int| 0 <= j < s.len() implies s[j] != x by {
                    if j > 0 {
                        assert(s[j] == t[j - 1]);
                    }
                }
            },
        }
    }
}

/// A first occurrence is what `position` reports.
pub proof fn lemma_position_is<T>(s: Seq<T>, x: T, i: int)
    requires
        0 <= i < s.len(),
        s[i] == x,
        forall|j: int| 0 <= j < i ==> s[j] != x,
    ensures
        position(s, x) == Some(i),
{
    lemma_position(s, x);
    match position(s, x) {
        Some(k) => {
            if k < i {
                assert(s[k] != x);
            } else if i < k {
                assert(s[i] != x);
            }
        },
        None => {
            assert(s[i] != x);
        },
    }
}

/// Without an occurrence, `position` reports none.
pub proof fn lemma_position_none<T>(s: Seq<T>, x: T)
    requires
        forall|j: int| 0 <= j < s.len() ==> s[j] != x,
    ensures
        position(s, x) is None,
{
    lemma_position(s, x);
}

/// Text appended behind a first occurrence does not move it.
pub proof fn lemma_position_extend<T>(s: Seq<T>, t: Seq<T>, x: T)
    requires
        position(s, x) is Some,
    ensures
        position(s + t, x) == position(s, x),
{
    lemma_position(s, x);
    let i = position(s, x)->0;
    assert forall|j: int| 0 <= j < i implies (s + t)[j] != x by {
        assert((s + t)[j] == s[j]);
    }
    lemma_position_is(s + t, x, i);
}

/// Two strings compare equal when they hold the same characters.
pub fn str_eq(a: &str, b: &str) -> (same: bool)
    ensures
        same == (a@ == b@),
{
    let x = a.as_bytes();
    let y = b.as_bytes();
    proof {
        vstd::utf8::encode_utf8_decode_utf8(a@);
        vstd::utf8::encode_utf8_decode_utf8(b@);
    }
    if x.len() != y.len() {
        return false;
    }
    let n: usize = x.len();
    for i in 0..n
        invariant
            n == x@.len(),
            n == y@.len(),
            x@ == utf8(a@),
            y@ == utf8(b@),
            forall|j: int| 0 <= j < i ==> x@[j] == y@[j],
    {
        if x[i] != y[i] {
            return false;
        }
    }
    assert(x@ =~= y@);
    true
}

/// Index of the first `c` in `s`, counted in characters.
pub fn find_char(s: &str, c: char) -> (found: Option<usize>)
    ensures
        match found {
            Some(i) => position(s@, c) == Some(i as int),
            None => position(s@, c) is None,
        },
{
    let n: usize = s.unicode_len();
    let mut i: usize = 0;
    for x in it: s.chars()
        invariant
            n == s@.len(),
            i == it.index(),
            it.seq() == s@,
            forall|j: int| 0 <= j < i ==> s@[j] != c,
    {
        if x == c {
            proof {
                lemma_position_is(s@, c, i as int);
            }
            return Some(i);
        }
        i = i + 1;
    }
    proof {
        lemma_position_none(s@, c);
    }
    None
}

/// The two halves of `s` around its first `c`.
pub open spec fn cut(s: Seq<char>, c: char) -> Option<(Seq<char>, Seq<char>)> {
    match position(s, c) {
        Some(i) => Some((s.take(i), s.skip(i + 1))),
        None => None,
    }
}

/// A text is cut at its first separator, which belongs to neither half, and only
/// there; a text without one is not cut.
pub proof fn law_cut(s: Seq<char>, head: Seq<char>, c: char, tail: Seq<char>)
    requires
        !head.contains(c),
    ensures
        cut(head.push(c) + tail, c) == Some((head, tail)),
        cut(s, c) is None <==> !s.contains(c),
        cut(s, c) matches Some((h, t)) ==> s == h.push(c) + t && !h.contains(c),
{
    let whole = head.push(c) + tail;
    let n = head.len() as int;
    assert(whole[n] == c);
    assert forall|j: int| 0 <= j < n implies whole[j] != c by {
        assert(whole[j] == head[j]);
        assert(head.contains(head[j]));
    }
    lemma_position_is(whole, c, n);
    assert(whole.take(n) =~= head);
    assert(whole.skip(n + 1) =~= tail);
    lemma_position(s, c);
    match position(s, c) {
        Some(i) => {
            assert(s.contains(s[i]));
            assert(s =~= s.take(i).push(c) + s.skip(i + 1));
            if s.take(i).contains(c) {
                let j = choose|j: int| 0 <= j < s.take(i).len() && s.take(i)[j] == c;
                assert(s[j] == c);
            }
        },
        None => {},
    }
}

/// Splits `s` around its first `c`; the separator belongs to neither half.
pub fn split_once(s: &str, c: char) -> (halves: Option<(String, String)>)
    ensures
        match halves {
            Some((head, tail)) => cut(s@, c) == Some((head@, tail@)),
            None => cut(s@, c) is None,
        },
{
    match find_char(s, c) {
        Some(i) => {
            proof {
                lemma_position(s@, c);
            }
            let n: usize = s.unicode_len();
            let head = s.substring_char(0, i);
            let tail = s.substring_char(i + 1, n);
            assert(s@.take(i as int) =~= s@.subrange(0, i as int));
            assert(s@.skip(i + 1) =~= s@.subrange(i + 1, n as int));
            Some((String::from_str(head), String::from_str(tail)))
        },
        None => None,
    }
}

/// What is left of `s` behind `prefix`, if `s` starts with it.
pub open spec fn stripped(s: Seq<char>, prefix: Seq<char>) -> Option<Seq<char>> {
    if prefix.is_prefix_of(s) {
        Some(s.skip(prefix.len() as int))
    } else {
        None
    }
}

/// To strip a prefix is to undo putting it in front, and works on nothing else.
pub proof fn law_stripped(s: Seq<char>, prefix: Seq<char>, rest: Seq<char>)
    ensures
        stripped(prefix + rest, prefix) == Some(rest),
        stripped(s, prefix) == Some(rest) <==> s == prefix + rest,
{
    let whole = prefix + rest;
    assert(whole.subrange(0, prefix.len() as int) =~= prefix);
    assert(whole.skip(prefix.len() as int) =~= rest);
    if prefix.is_prefix_of(s) {
        assert(s =~= prefix + s.skip(prefix.len() as int));
    }
}

/// Removes `prefix` from the front of `s`.
pub fn strip_prefix(s: &str, prefix: &str) -> (rest: Option<String>)
    ensures
        match rest {
            Some(r) => stripped(s@, prefix@) == Some(r@),
            None => stripped(s@, prefix@) is None,
        },
{
    let n: usize = s.unicode_len();
    let k: usize = prefix.unicode_len();
    if n < k {
        return None;
    }
    let head = s.substring_char(0, k);
    if !str_eq(head, prefix) {
        assert(!prefix@.is_prefix_of(s@));
        return None;
    }
    let rest = s.substring_char(k, n);
    assert(s@.skip(k as int) =~= s@.subrange(k as int, n as int));
    Some(String::from_str(rest))
}

/// Joins `list` with `sep` between neighbours.
pub open spec fn joined(list: Seq<Seq<char>>, sep: Seq<char>) -> Seq<char>
    decreases list.len(),
{
    if list.len() == 0 {
        Seq::empty()
    } else if list.len() == 1 {
        list[0]
    } else {
        joined(list.drop_last(), sep) + sep + list.last()
    }
}

/// A list of one is that text alone; each further text is put behind a
/// separator at the end.
pub proof fn law_joined(list: Seq<Seq<char>>, sep: Seq<char>, last: Seq<char>)
    ensures
        joined(Seq::empty(), sep) == Seq::<char>::empty(),
        joined(seq![last], sep) == last,
        list.len() > 0 ==> joined(list.push(last), sep) == joined(list, sep) + sep + last,
{
    assert(list.push(last).drop_last() =~= list);
}

/// Concatenates `list`, with `sep` between neighbours.
pub fn join(list: &Vec<String>, sep: &str) -> (s: String)
    ensures
        s@ == joined(texts(list@), sep@),
{
    let mut s = String::new();
    let n: usize = list.len();
    for i in 0..n
        invariant
            n == list@.len(),
            s@ == joined(texts(list@).take(i as int), sep@),
    {
        let ghost upto = texts(list@).take(i + 1);
        assert(upto.drop_last() =~= texts(list@).take(i as int));
        assert(upto.last() == list@[i as int]@);
        if i > 0 {
            s.append(sep);
        } else {
            assert(s@ =~= Seq::<char>::empty());
        }
        s.append(list[i].as_str());
        assert(s@ =~= joined(upto, sep@));
    }
    assert(texts(list@).take(n as int) =~= texts(list@));
    s
}

/// Copies a list of strings.
pub fn clone_strings(list: &Vec<String>) -> (copy: Vec<String>)
    ensures
        copy@ == list@,
{
    let mut copy: Vec<String> = Vec::new();
    let n: usize = list.len();
    for i in 0..n
        invariant
            n == list@.len(),
            copy@ == list@.take(i as int),
    {
        copy.push(list[i].clone());
        assert(copy@ =~= list@.take(i + 1));
    }
    assert(list@.take(n as int) =~= list@);
    copy
}

/// Owned copies of a list of string slices.
pub fn own_strings(list: &[&str]) -> (copy: Vec<String>)
    ensures
        texts(copy@) == slices(list@),
{
    let mut copy: Vec<String> = Vec::new();
    let n: usize = list.len();
    for i in 0..n
        invariant
            n == list@.len(),
            texts(copy@) == slices(list@).take(i as int),
    {
        let ghost before = copy@;
        let item: &str = list[i];
        copy.push(item.to_string());
        proof {
            lemma_texts_push(before, copy@.last());
        }
        assert(texts(copy@) =~= slices(list@).take(i + 1));
    }
    assert(slices(list@).take(n as int) =~= slices(list@));
    copy
}

} // verus!
