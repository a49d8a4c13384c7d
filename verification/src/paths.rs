//! Slash-separated file paths, held as text.

use vstd::prelude::*;

use crate::numeral;

verus! {

/// `part` below `base`: an absolute `part` stands alone, and a slash is put
/// between the two where `base` does not end in one.
pub open spec fn joined(base: Seq<char>, part: Seq<char>) -> Seq<char> {
    if part.len() > 0 && part[0] == '/' {
        part
    } else if base.len() == 0 || base.last() == '/' {
        base + part
    } else {
        base.push('/') + part
    }
}

/// A relative part stands below the base with one slash between them, an
/// absolute one stands alone, and below nothing a part is itself.
pub proof fn law_joined(base: Seq<char>, part: Seq<char>)
    ensures
        part.len() > 0 && part[0] == '/' ==> joined(base, part) == part,
        joined(Seq::empty(), part) == part,
        base.len() > 0 && base.last() != '/' && (part.len() == 0 || part[0] != '/') ==> joined(
            base,
            part,
        ) == base.push('/') + part,
        base.len() > 0 && base.last() == '/' && (part.len() == 0 || part[0] != '/') ==> joined(
            base,
            part,
        ) == base + part,
{
    assert(Seq::<char>::empty() + part =~= part);
}

/// Joins two paths.
pub fn join(base: &str, part: &str) -> (path: String)
    ensures
        path@ == joined(base@, part@),
{
    let n: usize = base.unicode_len();
    if part.unicode_len() > 0 && part.get_char(0) == '/' {
        return String::from_str(part);
    }
    let mut path = String::from_str(base);
    if n > 0 && base.get_char(n - 1) != '/' {
        path.push('/');
    }
    path.append(part);
    path
}

/// Where the last component of the first `end` characters of `path` ends:
/// slashes behind it, and components that are a single dot, do not count.
pub open spec fn component_end(path: Seq<char>, end: int) -> int
    decreases end,
{
    if end > 0 && (path[end - 1] == '/' || (end > 1 && path[end - 1] == '.' && path[end - 2]
        == '/')) {
        component_end(path, end - 1)
    } else {
        end
    }
}

/// Whether the component that ends at `end` is `name`.
pub open spec fn component_is(path: Seq<char>, end: int, name: Seq<char>) -> bool {
    let start = end - name.len();
    &&& 0 <= start
    &&& path.subrange(start, end) == name
    &&& start == 0 || path[start - 1] == '/'
}

/// Whether a path names a file: its last component is there, and refers neither
/// to the current nor to a parent directory.
pub open spec fn names_file(path: Seq<char>) -> bool {
    let end = component_end(path, path.len() as int);
    end > 0 && !component_is(path, end, seq!['.']) && !component_is(path, end, seq!['.', '.'])
}

/// Length of the path up to the extension of its last component, which ends at
/// `end`: up to the last dot of that component, unless the component starts
/// with it or holds none.
pub open spec fn stem_len(path: Seq<char>, end: int) -> int {
    stem_scan(path, end, end)
}

/// Looks for the extension's dot below `at`.
pub open spec fn stem_scan(path: Seq<char>, end: int, at: int) -> int
    decreases at,
{
    if at <= 0 || path[at - 1] == '/' {
        end
    } else if path[at - 1] == '.' {
        if at == 1 || path[at - 2] == '/' {
            end
        } else {
            at - 1
        }
    } else {
        stem_scan(path, end, at - 1)
    }
}

/// The path of the `n`-th rotated file beside `path`: the extension of its last
/// component is replaced by `log.n`. A path that names no file has no
/// extension to replace.
pub open spec fn rotated(path: Seq<char>, n: nat) -> Seq<char> {
    if names_file(path) {
        path.take(stem_len(path, component_end(path, path.len() as int))) + ".log."@
            + numeral::decimal(n)
    } else {
        path
    }
}

proof fn lemma_stem_scan(path: Seq<char>, end: int, at: int)
    requires
        0 <= at <= end,
    ensures
        0 <= stem_scan(path, end, at) <= end,
    decreases at,
{
    if at > 0 && path[at - 1] != '/' && path[at - 1] != '.' {
        lemma_stem_scan(path, end, at - 1);
    }
}

fn last_component_end(path: &str) -> (end: usize)
    ensures
        end == component_end(path@, path@.len() as int),
        end <= path@.len(),
{
    let n: usize = path.unicode_len();
    let mut end: usize = n;
    while end > 0
        invariant
            n == path@.len(),
            end <= n,
            component_end(path@, end as int) == component_end(path@, n as int),
        decreases end,
    {
        let c = path.get_char(end - 1);
        let skipped = c == '/' || (end > 1 && c == '.' && path.get_char(end - 2) == '/');
        if !skipped {
            return end;
        }
        end = end - 1;
    }
    0
}

fn is_file_name(path: &str, end: usize) -> (yes: bool)
    requires
        end == component_end(path@, path@.len() as int),
        end <= path@.len(),
    ensures
        yes == names_file(path@),
{
    let ghost p = path@;
    if end == 0 {
        return false;
    }
    let dot = path.get_char(end - 1) == '.';
    if dot && (end == 1 || path.get_char(end - 2) == '/') {
        assert(p.subrange(end - 1, end as int) =~= seq!['.']);
        assert(component_is(p, end as int, seq!['.']));
        return false;
    }
    if dot && end >= 2 && path.get_char(end - 2) == '.' && (end == 2 || path.get_char(end - 3)
        == '/') {
        assert(p.subrange(end - 2, end as int) =~= seq!['.', '.']);
        assert(component_is(p, end as int, seq!['.', '.']));
        return false;
    }
    proof {
        if component_is(p, end as int, seq!['.']) {
            assert(p.subrange(end - 1, end as int)[0] == '.');
            assert(seq!['.'].len() == 1);
        }
        if component_is(p, end as int, seq!['.', '.']) {
            assert(seq!['.', '.'].len() == 2);
            assert(p.subrange(end - 2, end as int)[0] == '.');
            assert(p.subrange(end - 2, end as int)[1] == '.');
        }
    }
    true
}

fn stem_end(path: &str, end: usize) -> (at: usize)
    requires
        end <= path@.len(),
    ensures
        at == stem_len(path@, end as int),
        at <= end,
{
    let mut at: usize = end;
    proof {
        lemma_stem_scan(path@, end as int, end as int);
    }
    while at > 0
        invariant
            end <= path@.len(),
            at <= end,
            stem_scan(path@, end as int, at as int) == stem_len(path@, end as int),
            0 <= stem_len(path@, end as int) <= end,
        decreases at,
    {
        let c = path.get_char(at - 1);
        if c == '/' {
            return end;
        }
        if c == '.' {
            if at == 1 || path.get_char(at - 2) == '/' {
                return end;
            }
            return at - 1;
        }
        at = at - 1;
    }
    end
}

/// The path of the `n`-th rotated file beside `path`.
pub fn rotated_path(path: &str, n: u64) -> (out: String)
    ensures
        out@ == rotated(path@, n as nat),
{
    let end: usize = last_component_end(path);
    if !is_file_name(path, end) {
        return String::from_str(path);
    }
    let at: usize = stem_end(path, end);
    let mut out = String::from_str(path.substring_char(0, at));
    assert(path@.subrange(0, at as int) =~= path@.take(at as int));
    out.append(".log.");
    numeral::push_decimal(&mut out, n);
    out
}

/// Every file name that ends in `.log` behind a non-empty stem rotates to the
/// same name with `.n` behind it.
pub proof fn lemma_rotated_log(stem: Seq<char>, n: nat)
    requires
        stem.len() > 0,
        stem.last() != '/',
    ensures
        rotated(stem + ".log"@, n) == stem + ".log."@ + numeral::decimal(n),
{
    reveal_strlit(".log");
    reveal_strlit(".log.");
    let path = stem + ".log"@;
    let k = stem.len() as int;
    assert(path[k] == '.' && path[k + 1] == 'l' && path[k + 2] == 'o' && path[k + 3] == 'g');
    assert(path[k - 1] == stem.last());
    assert(component_end(path, k + 4) == k + 4);
    assert(!component_is(path, k + 4, seq!['.']));
    if component_is(path, k + 4, seq!['.', '.']) {
        assert(path.subrange(k + 2, k + 4)[1] == '.');
    }
    reveal_with_fuel(stem_scan, 5);
    assert(stem_len(path, k + 4) == k);
    assert(path.take(k) =~= stem);
}

proof fn lemma_stem_scan_extension(path: Seq<char>, k: int, at: int)
    requires
        0 < k < at <= path.len(),
        path[k] == '.',
        path[k - 1] != '/',
        forall|j: int| k < j < at ==> path[j] != '.' && path[j] != '/',
    ensures
        stem_scan(path, path.len() as int, at) == k,
    decreases at,
{
    if at - 1 > k {
        assert(path[at - 1] != '.' && path[at - 1] != '/');
        lemma_stem_scan_extension(path, k, at - 1);
    }
}

/// Whatever the extension of a file, rotating it puts `log.n` in its place.
pub proof fn law_rotated(stem: Seq<char>, ext: Seq<char>, n: nat)
    requires
        stem.len() > 0,
        stem.last() != '/',
        ext.len() > 0,
        !ext.contains('.'),
        !ext.contains('/'),
    ensures
        rotated(stem.push('.') + ext, n) == stem + ".log."@ + numeral::decimal(n),
{
    let path = stem.push('.') + ext;
    let k = stem.len() as int;
    let end = path.len() as int;
    assert(path[k] == '.' && path[k - 1] == stem.last());
    assert forall|j: int| k < j < end implies path[j] != '.' && path[j] != '/' by {
        assert(path[j] == ext[j - k - 1]);
        assert(ext.contains(ext[j - k - 1]));
    }
    assert(component_end(path, end) == end);
    if component_is(path, end, seq!['.']) {
        assert(path.subrange(end - 1, end)[0] == '.');
    }
    if component_is(path, end, seq!['.', '.']) {
        assert(path.subrange(end - 2, end)[1] == '.');
    }
    lemma_stem_scan_extension(path, k, end);
    assert(path.take(k) =~= stem);
}

} // verus!
