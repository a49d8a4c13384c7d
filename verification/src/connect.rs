//! Finding and probing containerd's socket.

use vstd::prelude::*;

use crate::error::{Error, ErrorSpec, IoError, IoKind, Result};
use crate::paths;
use crate::text;

verus! {

/// The socket to connect to: the explicit one, else that of the environment if
/// it names one, else the default.
pub open spec fn resolved(
    explicit: Option<Seq<char>>,
    env: Option<Seq<char>>,
    default: Seq<char>,
) -> Seq<char> {
    match explicit {
        Some(path) => path,
        None => match env {
            Some(val) if val.len() > 0 => val,
            _ => default,
        },
    }
}

pub open spec fn opt_str(s: Option<&str>) -> Option<Seq<char>> {
    match s {
        Some(t) => Some(t@),
        None => None,
    }
}

/// Precedence: explicit arg → `CONTAINERD_SOCKET` env var → platform default.
pub fn resolve_socket_path_with(
    socket_path: Option<&str>,
    env_val: Option<&str>,
    default: &str,
) -> (path: String)
    ensures
        path@ == resolved(opt_str(socket_path), opt_str(env_val), default@),
{
    if let Some(path) = socket_path {
        return String::from_str(path);
    }
    if let Some(val) = env_val {
        if val.unicode_len() > 0 {
            return String::from_str(val);
        }
    }
    String::from_str(default)
}

/// An explicit path always counts, even an empty one; the environment counts
/// only without one and only if it names something; the default counts if
/// neither does.
pub proof fn law_resolved(path: Seq<char>, env: Option<Seq<char>>, val: Seq<char>, default: Seq<char>)
    ensures
        resolved(Some(path), env, default) == path,
        val.len() > 0 ==> resolved(None, Some(val), default) == val,
        val.len() == 0 ==> resolved(None, Some(val), default) == default,
        resolved(None, None, default) == default,
{
}

/// The socket to connect to. Only targets with Unix sockets have one.
pub fn connect(
    unix: bool,
    socket_path: Option<&str>,
    env_val: Option<&str>,
    default: &str,
) -> (out: Result<String>)
    ensures
        match out {
            Ok(path) => unix && path@ == resolved(opt_str(socket_path), opt_str(env_val), default@),
            Err(e) => !unix && e@ == ErrorSpec::InvalidArgument(
                "containerd-manager requires a Unix-socket-capable target. On Windows, build and run inside WSL2."@,
            ),
        },
{
    if !unix {
        return Err(
            Error::InvalidArgument(
                String::from_str(
                    "containerd-manager requires a Unix-socket-capable target. On Windows, build and run inside WSL2.",
                ),
            ),
        );
    }
    Ok(resolve_socket_path_with(socket_path, env_val, default))
}

/// The platform's socket: on macOS that of a Colima profile, if there is one.
pub fn default_socket_path(macos: bool, colima: Option<String>) -> (path: String)
    ensures
        path@ == if macos {
            match colima {
                Some(sock) => sock@,
                None => "/var/run/containerd/containerd.sock"@,
            }
        } else {
            "/run/containerd/containerd.sock"@
        },
{
    if macos {
        match colima {
            Some(sock) => sock,
            None => String::from_str("/var/run/containerd/containerd.sock"),
        }
    } else {
        String::from_str("/run/containerd/containerd.sock")
    }
}

/// Order of texts: byte by byte, a beginning before what it begins.
pub open spec fn before(a: Seq<u8>, b: Seq<u8>) -> bool
    decreases a.len(),
{
    if b.len() == 0 {
        false
    } else if a.len() == 0 {
        true
    } else if a[0] != b[0] {
        a[0] < b[0]
    } else {
        before(a.drop_first(), b.drop_first())
    }
}

fn comes_before(a: &str, b: &str) -> (yes: bool)
    ensures
        yes == before(text::utf8(a@), text::utf8(b@)),
{
    let x = a.as_bytes();
    let y = b.as_bytes();
    let n: usize = x.len();
    let m: usize = y.len();
    let mut i: usize = 0;
    assert(x@.skip(0) =~= x@);
    assert(y@.skip(0) =~= y@);
    while i < n && i < m
        invariant
            n == x@.len(),
            m == y@.len(),
            i <= n,
            i <= m,
            x@ == text::utf8(a@),
            y@ == text::utf8(b@),
            before(x@.skip(i as int), y@.skip(i as int)) == before(x@, y@),
        decreases n - i,
    {
        assert(x@.skip(i as int)[0] == x@[i as int]);
        assert(y@.skip(i as int)[0] == y@[i as int]);
        assert(x@.skip(i as int).drop_first() =~= x@.skip(i + 1));
        assert(y@.skip(i as int).drop_first() =~= y@.skip(i + 1));
        if x[i] != y[i] {
            return x[i] < y[i];
        }
        i = i + 1;
    }
    i < m
}

proof fn lemma_before_transitive(a: Seq<u8>, b: Seq<u8>, c: Seq<u8>)
    ensures
        before(a, b) && before(b, c) ==> before(a, c),
        !before(a, b) && !before(b, c) ==> !before(a, c),
    decreases a.len() + b.len() + c.len(),
{
    if a.len() > 0 && b.len() > 0 && c.len() > 0 {
        lemma_before_transitive(a.drop_first(), b.drop_first(), c.drop_first());
    }
}

/// Texts are in a strict order, in which two that differ are told apart by the
/// first byte in which they differ.
pub proof fn law_before(a: Seq<u8>, b: Seq<u8>, head: Seq<u8>, x: u8, y: u8)
    ensures
        !before(a, a),
        a != b ==> before(a, b) != before(b, a),
        a.len() > 0 ==> before(head, head + a),
        x < y ==> before(head.push(x) + a, head.push(y) + b),
    decreases a.len(), head.len(),
{
    lemma_before_irreflexive(a);
    lemma_before_total(a, b);
    lemma_before_prefix(a, b, head, x, y);
}

proof fn lemma_before_total(a: Seq<u8>, b: Seq<u8>)
    ensures
        a != b ==> before(a, b) != before(b, a),
    decreases a.len(),
{
    if a.len() == 0 || b.len() == 0 {
        if a.len() == b.len() {
            assert(a =~= b);
        }
    } else if a[0] == b[0] {
        lemma_before_total(a.drop_first(), b.drop_first());
        if a.drop_first() == b.drop_first() {
            assert(a =~= seq![a[0]] + a.drop_first());
            assert(b =~= seq![b[0]] + b.drop_first());
        }
    }
}

proof fn lemma_before_prefix(a: Seq<u8>, b: Seq<u8>, head: Seq<u8>, x: u8, y: u8)
    ensures
        a.len() > 0 ==> before(head, head + a),
        x < y ==> before(head.push(x) + a, head.push(y) + b),
    decreases head.len(),
{
    if head.len() > 0 {
        let rest = head.drop_first();
        lemma_before_prefix(a, b, rest, x, y);
        assert((head + a).drop_first() =~= rest + a);
        assert((head.push(x) + a).drop_first() =~= rest.push(x) + a);
        assert((head.push(y) + b).drop_first() =~= rest.push(y) + b);
    }
}

/// A Colima profile whose directory holds a containerd socket.
#[derive(Debug)]
pub struct Profile {
    pub name: String,
    pub socket: String,
}

/// The socket of a profile below the Colima directory.
pub fn profile_socket(colima_dir: &str, name: &str) -> (path: String)
    ensures
        path@ == paths::joined(paths::joined(colima_dir@, name@), "containerd.sock"@),
{
    let dir = paths::join(colima_dir, name);
    paths::join(dir.as_str(), "containerd.sock")
}

pub open spec fn is_default(p: Profile) -> bool {
    p.name@ == "default"@
}

/// Whether the `i`-th profile is the one to use among the first `n`: the first
/// by name among those that are not `default`.
pub open spec fn preferred(profiles: Seq<Profile>, n: int, i: int) -> bool {
    &&& 0 <= i < n
    &&& !is_default(profiles[i])
    &&& forall|j: int|
        0 <= j < n && !is_default(#[trigger] profiles[j]) ==> !before(
            text::utf8(profiles[j].name@),
            text::utf8(profiles[i].name@),
        )
}

pub open spec fn only_default(profiles: Seq<Profile>, n: int) -> bool {
    forall|j: int| 0 <= j < n ==> is_default(#[trigger] profiles[j])
}

/// A profile named `default` is never preferred, and any other of a different
/// name comes behind the preferred one.
pub proof fn law_preferred(profiles: Seq<Profile>, n: int, i: int, j: int)
    requires
        preferred(profiles, n, i),
        0 <= j < n,
    ensures
        profiles[i].name@ != "default"@,
        !only_default(profiles, n),
        profiles[j].name@ != "default"@ && text::utf8(profiles[j].name@) != text::utf8(
            profiles[i].name@,
        ) ==> before(text::utf8(profiles[i].name@), text::utf8(profiles[j].name@)),
{
    let mine = text::utf8(profiles[i].name@);
    let other = text::utf8(profiles[j].name@);
    assert(!is_default(profiles[j]) ==> !before(other, mine));
    lemma_before_total(mine, other);
    assert(!is_default(profiles[i]));
}

/// Where only `default` is said to be there, there is no profile of another
/// name.
pub proof fn law_only_default(profiles: Seq<Profile>, n: int, j: int)
    requires
        only_default(profiles, n),
        0 <= j < n,
    ensures
        profiles[j].name@ == "default"@,
{
    assert(is_default(profiles[j]));
}

/// Picks the socket of a profile. The `default` profile typically hosts Docker
/// and its containerd socket serves the daemon's internal namespace, so other
/// profiles are preferred; `default` is only used as a fallback. The others
/// are taken by name so the selection is deterministic across runs.
pub fn find_colima_socket_in(profiles: &Vec<Profile>) -> (out: Option<String>)
    ensures
        match out {
            Some(sock) => exists|i: int|
                0 <= i < profiles@.len() && sock@ == (#[trigger] profiles@[i]).socket@ && (preferred(
                    profiles@,
                    profiles@.len() as int,
                    i,
                ) || (only_default(profiles@, profiles@.len() as int) && i == profiles@.len() - 1)),
            None => profiles@.len() == 0,
        },
{
    let n: usize = profiles.len();
    let mut best: Option<usize> = None;
    for i in 0..n
        invariant
            n == profiles@.len(),
            match best {
                Some(b) => preferred(profiles@, i as int, b as int),
                None => only_default(profiles@, i as int),
            },
    {
        if !text::str_eq(profiles[i].name.as_str(), "default") {
            match best {
                Some(b) => {
                    if comes_before(profiles[i].name.as_str(), profiles[b].name.as_str()) {
                        proof {
                            let mine = text::utf8(profiles@[i as int].name@);
                            let theirs = text::utf8(profiles@[b as int].name@);
                            assert forall|j: int|
                                0 <= j < i + 1 && !is_default(#[trigger] profiles@[j]) implies !before(
                                text::utf8(profiles@[j].name@),
                                mine,
                            ) by {
                                let other = text::utf8(profiles@[j].name@);
                                if j < i {
                                    assert(!before(other, theirs));
                                    lemma_before_transitive(other, mine, theirs);
                                } else {
                                    lemma_before_irreflexive(mine);
                                }
                            }
                        }
                        best = Some(i);
                    }
                },
                None => {
                    proof {
                        lemma_before_irreflexive(text::utf8(profiles@[i as int].name@));
                    }
                    best = Some(i);
                },
            }
        }
    }
    match best {
        Some(b) => Some(profiles[b].socket.clone()),
        None => {
            if n > 0 {
                assert(is_default(profiles@[n - 1]));
                Some(profiles[n - 1].socket.clone())
            } else {
                None
            }
        },
    }
}

proof fn lemma_before_irreflexive(a: Seq<u8>)
    ensures
        !before(a, a),
    decreases a.len(),
{
    if a.len() > 0 {
        lemma_before_irreflexive(a.drop_first());
    }
}

/// What the eager probe of a socket found.
#[derive(Debug)]
pub enum SocketProbe {
    /// No such file.
    Missing,
    /// A connection was made.
    Connected,
    Failed(IoError),
}

/// Turns what the probe of a socket found into an error, so that a dead socket
/// shows before any call is made.
pub fn connect_unix(path: String, probe: SocketProbe) -> (out: Result<()>)
    ensures
        match probe {
            SocketProbe::Missing => out matches Err(e) && e@ == (ErrorSpec::SocketNotFound {
                path: path@,
            }),
            SocketProbe::Connected => out is Ok,
            SocketProbe::Failed(source) => out matches Err(e) && e@ == if source.kind
                == IoKind::ConnectionRefused {
                ErrorSpec::ConnectionRefused { path: path@ }
            } else {
                ErrorSpec::Io { context: "connect socket"@, source: source@ }
            },
        },
{
    match probe {
        SocketProbe::Missing => Err(Error::SocketNotFound { path }),
        SocketProbe::Connected => Ok(()),
        SocketProbe::Failed(source) => match source.kind {
            IoKind::ConnectionRefused => Err(Error::ConnectionRefused { path }),
            _ => Err(Error::Io { context: "connect socket", source }),
        },
    }
}

} // verus!
