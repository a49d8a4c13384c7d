//! Client: the namespace that calls go to, and the state that clients share.

use std::sync::Arc;

use dashmap::DashMap;
use vstd::prelude::*;

use crate::consts::NETWORK_MODE_LABEL;
use crate::container::ImageMetadata;
use crate::error::{Error, ErrorSpec, Result};
use crate::outside;
use crate::task::Seen;
use crate::text;
use crate::time::{Duration, NANOS_PER_MILLI, NANOS_PER_SEC};
use crate::types::{ContainerInfo, TaskStatus};
use crate::util;

verus! {

/// `dashmap::DashMap`: a concurrent hash map.
#[verifier::external_type_specification]
#[verifier::external_body]
#[verifier::reject_recursive_types(K)]
#[verifier::reject_recursive_types(V)]
#[verifier::reject_recursive_types(S)]
pub struct ExDashMap<K, V, S>(dashmap::DashMap<K, V, S>);

/// The image metadata that a map holds, by manifest digest.
pub uninterp spec fn images_in(
    m: dashmap::DashMap<String, Arc<ImageMetadata>>,
) -> Map<Seq<char>, ImageMetadata>;

/// The start times that a map holds, by key.
pub uninterp spec fn starts_in(m: dashmap::DashMap<String, Duration>) -> Map<Seq<char>, Duration>;

/// `dashmap::DashMap::new` makes an empty map.
#[verifier::external_body]
fn new_images() -> (m: DashMap<String, Arc<ImageMetadata>>)
    ensures
        (images_in(m) == Map::<Seq<char>, ImageMetadata>::empty()),
{
    DashMap::new()
}

/// `dashmap::DashMap::insert` puts a value under a key, in place of an earlier
/// one.
#[verifier::external_body]
fn put_image(
    m: &mut DashMap<String, Arc<ImageMetadata>>,
    digest: String,
    metadata: Arc<ImageMetadata>,
)
    ensures
        images_in(*final(m)) == images_in(*old(m)).insert(digest@, *metadata),
{
    m.insert(digest, metadata);
}

/// `dashmap::DashMap::get` finds the value under a key, of which
/// `Arc::clone` hands out another reference.
#[verifier::external_body]
fn find_image(m: &DashMap<String, Arc<ImageMetadata>>, digest: &str) -> (found: Option<
    Arc<ImageMetadata>,
>)
    ensures
        match found {
            Some(v) => images_in(*m).dom().contains(digest@) && images_in(*m)[digest@] == *v,
            None => !images_in(*m).dom().contains(digest@),
        },
{
    m.get(digest).map(|entry| entry.value().clone())
}

/// `dashmap::DashMap::clear` drops every entry.
#[verifier::external_body]
fn clear_images(m: &mut DashMap<String, Arc<ImageMetadata>>)
    ensures
        (images_in(*final(m)) == Map::<Seq<char>, ImageMetadata>::empty()),
{
    m.clear();
}

/// `dashmap::DashMap::len` counts the entries, of which there are finitely
/// many.
#[verifier::external_body]
fn count_images(m: &DashMap<String, Arc<ImageMetadata>>) -> (n: usize)
    ensures
        n == images_in(*m).dom().len(),
{
    m.len()
}

/// `dashmap::DashMap::new` makes an empty map.
#[verifier::external_body]
fn new_starts() -> (m: DashMap<String, Duration>)
    ensures
        (starts_in(m) == Map::<Seq<char>, Duration>::empty()),
{
    DashMap::new()
}

/// `dashmap::DashMap::insert` puts a value under a key, in place of an earlier
/// one.
#[verifier::external_body]
fn put_start(m: &mut DashMap<String, Duration>, key: String, at: Duration)
    ensures
        starts_in(*final(m)) == starts_in(*old(m)).insert(key@, at),
{
    m.insert(key, at);
}

/// `dashmap::DashMap::remove` drops the entry under a key, if there is one.
#[verifier::external_body]
fn drop_start(m: &mut DashMap<String, Duration>, key: &str)
    ensures
        starts_in(*final(m)) == starts_in(*old(m)).remove(key@),
{
    m.remove(key);
}

/// `dashmap::DashMap::get` finds the value under a key.
#[verifier::external_body]
fn find_start(m: &DashMap<String, Duration>, key: &str) -> (found: Option<Duration>)
    ensures
        match found {
            Some(at) => starts_in(*m).dom().contains(key@) && starts_in(*m)[key@] == at,
            None => !starts_in(*m).dom().contains(key@),
        },
{
    m.get(key).map(|entry| *entry.value())
}

/// What all clients on one connection share: image metadata by manifest
/// digest, and task start times by namespace and container.
pub struct SharedState {
    images: DashMap<String, Arc<ImageMetadata>>,
    starts: DashMap<String, Duration>,
}

impl SharedState {
    /// The cached image metadata, by manifest digest. Values are
    /// content-addressed and safe to keep across pulls.
    pub closed spec fn images(self) -> Map<Seq<char>, ImageMetadata> {
        images_in(self.images)
    }

    /// The start times of tasks, by `<namespace>/<container_id>`.
    pub closed spec fn starts(self) -> Map<Seq<char>, Duration> {
        starts_in(self.starts)
    }

    pub fn new() -> (s: Self)
        ensures
            s.images() == Map::<Seq<char>, ImageMetadata>::empty(),
            s.starts() == Map::<Seq<char>, Duration>::empty(),
    {
        SharedState { images: new_images(), starts: new_starts() }
    }
}

/// Whether a namespace can be sent as a gRPC metadata header value: visible
/// ASCII characters and tabs alone.
pub open spec fn valid_namespace(s: Seq<u8>) -> bool {
    forall|i: int| 0 <= i < s.len() ==> (32 <= #[trigger] s[i] < 127) || s[i] == 9
}

/// A namespace is sendable exactly if each of its bytes is: a visible ASCII
/// character, a space or a tab.
pub proof fn law_valid_namespace(s: Seq<u8>, b: u8)
    ensures
        valid_namespace(Seq::empty()),
        valid_namespace(s.push(b)) <==> valid_namespace(s) && (b == 9 || 32 <= b <= 126),
{
    let more = s.push(b);
    assert(more[s.len() as int] == b);
    if valid_namespace(more) {
        assert forall|i: int| 0 <= i < s.len() implies (32 <= #[trigger] s[i] < 127) || s[i]
            == 9 by {
            assert(more[i] == s[i]);
        }
    }
}

fn header_safe(s: &str) -> (yes: bool)
    ensures
        yes == valid_namespace(text::utf8(s@)),
{
    let bytes = s.as_bytes();
    let n: usize = bytes.len();
    for i in 0..n
        invariant
            n == bytes@.len(),
            bytes@ == text::utf8(s@),
            forall|j: int| 0 <= j < i ==> (32 <= #[trigger] bytes@[j] < 127) || bytes@[j] == 9,
    {
        let b: u8 = bytes[i];
        if !((32 <= b && b < 127) || b == 9) {
            return false;
        }
    }
    true
}

/// The key of a container's entries in the shared state. The namespace prefix
/// keeps the same container id in two namespaces apart.
pub open spec fn key_in(namespace: Seq<char>, id: Seq<char>) -> Seq<char> {
    namespace + "/"@ + id
}

/// A view of containerd's objects in one namespace; `"default"` at first.
#[derive(Debug)]
pub struct Client {
    namespace: String,
}

impl View for Client {
    type V = Seq<char>;

    /// The namespace.
    closed spec fn view(&self) -> Seq<char> {
        self.namespace@
    }
}

impl Client {
    #[verifier::type_invariant]
    spec fn sendable(self) -> bool {
        valid_namespace(text::utf8(self.namespace@))
    }

    pub fn new() -> (c: Self)
        ensures
            c@ == "default"@,
    {
        proof {
            reveal_strlit("default");
            crate::numeral::lemma_ascii_utf8(
                "default"@,
                seq![100u8, 101u8, 102u8, 97u8, 117u8, 108u8, 116u8],
            );
        }
        Client { namespace: String::from_str("default") }
    }

    pub fn namespace(&self) -> (ns: &str)
        ensures
            ns@ == self@,
            valid_namespace(text::utf8(self@)),
    {
        proof {
            use_type_invariant(self);
        }
        self.namespace.as_str()
    }

    /// A client for a different namespace. For user-supplied input prefer
    /// [`try_with_namespace`](Self::try_with_namespace).
    pub fn with_namespace(&self, namespace: &str) -> (c: Self)
        requires
            valid_namespace(text::utf8(namespace@)),
        ensures
            c@ == namespace@,
    {
        Client { namespace: String::from_str(namespace) }
    }

    /// Fallible variant of [`with_namespace`](Self::with_namespace). Returns
    /// `Error::InvalidArgument` when the namespace can't be encoded as a gRPC
    /// metadata header value (must be ASCII visible chars).
    pub fn try_with_namespace(&self, namespace: &str) -> (out: Result<Self>)
        ensures
            match out {
                Ok(c) => valid_namespace(text::utf8(namespace@)) && c@ == namespace@,
                Err(e) => !valid_namespace(text::utf8(namespace@)) && e@
                    == ErrorSpec::InvalidArgument(
                    "namespace "@ + outside::debug_text(namespace@)
                        + " is not valid as a gRPC metadata header value (ASCII visible chars only)"@,
                ),
            },
    {
        if !header_safe(namespace) {
            let mut message = String::from_str("namespace ");
            message.append(outside::debug_str(namespace).as_str());
            message.append(
                " is not valid as a gRPC metadata header value (ASCII visible chars only)",
            );
            return Err(Error::InvalidArgument(message));
        }
        Ok(self.with_namespace(namespace))
    }

    /// Drops every cached image-metadata entry.
    pub fn clear_image_cache(&self, state: &mut SharedState)
        ensures
            final(state).images() == Map::<Seq<char>, ImageMetadata>::empty(),
            final(state).starts() == old(state).starts(),
    {
        clear_images(&mut state.images);
    }

    pub fn image_cache_len(&self, state: &SharedState) -> (n: usize)
        ensures
            n == state.images().dom().len(),
    {
        count_images(&state.images)
    }

    pub fn lookup_image_metadata(&self, state: &SharedState, manifest_digest: &str) -> (found:
        Option<Arc<ImageMetadata>>)
        ensures
            match found {
                Some(m) => state.images().dom().contains(manifest_digest@)
                    && state.images()[manifest_digest@] == *m,
                None => !state.images().dom().contains(manifest_digest@),
            },
    {
        find_image(&state.images, manifest_digest)
    }

    pub fn store_image_metadata(
        &self,
        state: &mut SharedState,
        manifest_digest: String,
        metadata: Arc<ImageMetadata>,
    )
        ensures
            final(state).images() == old(state).images().insert(manifest_digest@, *metadata),
            final(state).starts() == old(state).starts(),
    {
        put_image(&mut state.images, manifest_digest, metadata);
    }

    /// The metadata header that sends a request to the client's namespace.
    pub fn ns_req(&self) -> (header: (&'static str, &str))
        ensures
            header.0@ == "containerd-namespace"@,
            header.1@ == self@,
            valid_namespace(text::utf8(header.1@)),
    {
        proof {
            use_type_invariant(self);
        }
        ("containerd-namespace", self.namespace.as_str())
    }

    /// Builds the `<namespace>/<container_id>` key for per-container state.
    pub fn ns_key(&self, container_id: &str) -> (key: String)
        ensures
            key@ == key_in(self@, container_id@),
    {
        let mut key = self.namespace.clone();
        key.append("/");
        key.append(container_id);
        key
    }

    /// Records that a task started `now`, a time on the clock of the shared
    /// state.
    pub fn record_task_start(&self, state: &mut SharedState, container_id: &str, now: Duration)
        ensures
            final(state).starts() == old(state).starts().insert(key_in(self@, container_id@), now),
            final(state).images() == old(state).images(),
    {
        put_start(&mut state.starts, self.ns_key(container_id), now);
    }

    pub fn forget_task_start(&self, state: &mut SharedState, container_id: &str)
        ensures
            final(state).starts() == old(state).starts().remove(key_in(self@, container_id@)),
            final(state).images() == old(state).images(),
    {
        let key = self.ns_key(container_id);
        drop_start(&mut state.starts, key.as_str());
    }

    /// How long a task has been up `now`, if its start was recorded.
    pub fn task_uptime(&self, state: &SharedState, container_id: &str, now: Duration) -> (up: Option<
        Duration,
    >)
        ensures
            match up {
                Some(d) => {
                    &&& state.starts().dom().contains(key_in(self@, container_id@))
                    &&& d.nanos() == ({
                        let start = state.starts()[key_in(self@, container_id@)].nanos();
                        if now.nanos() >= start {
                            (now.nanos() - start) as nat
                        } else {
                            0
                        }
                    })
                },
                None => !state.starts().dom().contains(key_in(self@, container_id@)),
            },
    {
        let key = self.ns_key(container_id);
        match find_start(&state.starts, key.as_str()) {
            Some(start) => Some(now.saturating_sub(&start)),
            None => None,
        }
    }
}

impl Clone for Client {
    fn clone(&self) -> (copy: Self)
        ensures
            copy@ == self@,
    {
        proof {
            use_type_invariant(self);
        }
        Client { namespace: self.namespace.clone() }
    }
}

/// Keys never clash: valid container ids hold no slash, so a key tells its
/// namespace and its container apart.
pub proof fn law_keys_are_distinct(
    ns1: Seq<char>,
    id1: Seq<char>,
    ns2: Seq<char>,
    id2: Seq<char>,
)
    requires
        util::valid_identifier(text::utf8(id1)),
        util::valid_identifier(text::utf8(id2)),
        key_in(ns1, id1) == key_in(ns2, id2),
    ensures
        ns1 == ns2,
        id1 == id2,
{
    reveal_strlit("/");
    lemma_no_slash(id1);
    lemma_no_slash(id2);
    let s = key_in(ns1, id1);
    assert(s.len() == ns1.len() + 1 + id1.len());
    assert(key_in(ns2, id2).len() == ns2.len() + 1 + id2.len());
    assert(s[ns1.len() as int] == '/');
    assert(key_in(ns2, id2)[ns2.len() as int] == '/');
    if ns1.len() < ns2.len() {
        assert(s[ns2.len() as int] == id1[ns2.len() - ns1.len() - 1]);
    } else if ns2.len() < ns1.len() {
        assert(key_in(ns2, id2)[ns1.len() as int] == id2[ns1.len() - ns2.len() - 1]);
    }
    assert(s.take(ns1.len() as int) =~= ns1);
    assert(s.take(ns2.len() as int) =~= ns2);
    assert(s.skip(ns1.len() as int + 1) =~= id1);
    assert(s.skip(ns2.len() as int + 1) =~= id2);
}

/// A text whose UTF-8 bytes make a valid identifier is ASCII and holds no
/// slash.
proof fn lemma_no_slash(id: Seq<char>)
    requires
        util::valid_identifier(text::utf8(id)),
    ensures
        forall|i: int| 0 <= i < id.len() ==> #[trigger] id[i] != '/',
{
    let b = text::utf8(id);
    assert(vstd::utf8::is_ascii_chars(id)) by {
        lemma_ascii_bytes(id);
    }
    vstd::utf8::is_ascii_chars_encode_utf8(id);
    assert forall|i: int| 0 <= i < id.len() implies #[trigger] id[i] != '/' by {
        assert(util::is_alnum(b[i]) || util::is_separator(b[i]));
        assert(id[i] as u8 == b[i]);
    }
}

/// Characters whose UTF-8 bytes are all below 128 are ASCII.
proof fn lemma_ascii_bytes(chars: Seq<char>)
    requires
        forall|i: int|
            0 <= i < text::utf8(chars).len() ==> #[trigger] text::utf8(chars)[i] < 128,
    ensures
        vstd::utf8::is_ascii_chars(chars),
    decreases chars.len(),
{
    if chars.len() > 0 {
        let c = chars[0];
        vstd::utf8::char_is_scalar(c);
        let head = vstd::utf8::encode_scalar(c as u32);
        let rest = chars.drop_first();
        assert(text::utf8(chars) =~= head + text::utf8(rest));
        assert forall|i: int| 0 <= i < text::utf8(rest).len() implies #[trigger] text::utf8(rest)[i]
            < 128 by {
            assert(text::utf8(rest)[i] == text::utf8(chars)[i + head.len()]);
        }
        lemma_ascii_bytes(rest);
        assert(head[0] == text::utf8(chars)[0]);
        let u = c as u32;
        assert(u <= 0x7f) by {
            assert((0xC0u8 | ((u >> 6) & 0x1F) as u8) >= 128) by (bit_vector);
            assert((0xE0u8 | ((u >> 12) & 0x0F) as u8) >= 128) by (bit_vector);
            assert((0xF0u8 | ((u >> 18) & 0x7) as u8) >= 128) by (bit_vector);
        }
        vstd::utf8::char_u32_cast(c, u);
        assert('\0' <= u as char <= '\u{7f}');
        assert forall|i: int| 0 <= i < chars.len() implies '\0' <= #[trigger] chars[i]
            <= '\u{7f}' by {
            if i > 0 {
                assert(chars[i] == rest[i - 1]);
            }
        }
    }
}

/// Recording the start of one container's task, or forgetting it, leaves the
/// others alone, also those of the same id in other namespaces.
pub proof fn law_start_times_are_independent(
    starts: Map<Seq<char>, Duration>,
    ns1: Seq<char>,
    id1: Seq<char>,
    ns2: Seq<char>,
    id2: Seq<char>,
    at: Duration,
)
    requires
        util::valid_identifier(text::utf8(id1)),
        util::valid_identifier(text::utf8(id2)),
        ns1 != ns2 || id1 != id2,
    ensures
        ({
            let k1 = key_in(ns1, id1);
            let k2 = key_in(ns2, id2);
            &&& starts.insert(k1, at).dom().contains(k2) == starts.dom().contains(k2)
            &&& starts.dom().contains(k2) ==> starts.insert(k1, at)[k2] == starts[k2]
            &&& starts.remove(k1).dom().contains(k2) == starts.dom().contains(k2)
            &&& starts.dom().contains(k2) ==> starts.remove(k1)[k2] == starts[k2]
        }),
{
    if key_in(ns1, id1) == key_in(ns2, id2) {
        law_keys_are_distinct(ns1, id1, ns2, id2);
    }
}

/// What was cached for a manifest is found under its digest, by clients of any
/// namespace, until the cache is cleared; caching another manifest does not
/// touch it.
pub proof fn law_image_cache(
    images: Map<Seq<char>, ImageMetadata>,
    digest: Seq<char>,
    metadata: ImageMetadata,
    other: Seq<char>,
    more: ImageMetadata,
)
    requires
        other != digest,
    ensures
        ({
            let cached = images.insert(digest, metadata).insert(other, more);
            cached.dom().contains(digest) && cached[digest] == metadata
        }),
{
}

/// Whether labels record bridge mode.
pub open spec fn bridged(labels: Map<Seq<char>, Seq<char>>) -> bool {
    labels.dom().contains(NETWORK_MODE_LABEL@) && labels[NETWORK_MODE_LABEL@] == "bridge"@
}

/// Labels record bridge mode only by saying so; labels of the other modes, and
/// labels that record none, do not.
pub proof fn law_bridged(labels: Map<Seq<char>, Seq<char>>, mode: Seq<char>)
    ensures
        bridged(labels.insert("containerd-manager.network.mode"@, mode)) <==> mode == "bridge"@,
        !bridged(labels.remove("containerd-manager.network.mode"@)),
{
}

/// Only bridge mode has user-space port-forward proxies. Host shares the host
/// loopback; isolated has no external connectivity.
pub fn is_bridge_mode(info: &ContainerInfo) -> (yes: bool)
    ensures
        yes == bridged(info.labels@),
{
    match info.labels.get(NETWORK_MODE_LABEL) {
        Some(v) => text::str_eq(v.as_str(), "bridge"),
        None => false,
    }
}

/// The `(host_port, container_port)` forwards to start along with a container:
/// every declared binding in bridge mode, none in the other modes.
pub fn forwards_to_start(info: &ContainerInfo) -> (out: Vec<(u16, u16)>)
    ensures
        out@ == if bridged(info.labels@) {
            info.port_forwards@
        } else {
            Seq::empty()
        },
{
    let mut out: Vec<(u16, u16)> = Vec::new();
    if is_bridge_mode(info) {
        let n: usize = info.port_forwards.len();
        for i in 0..n
            invariant
                n == info.port_forwards@.len(),
                out@ == info.port_forwards@.take(i as int),
        {
            out.push(info.port_forwards[i]);
            assert(out@ =~= info.port_forwards@.take(i + 1));
        }
        assert(info.port_forwards@.take(n as int) =~= info.port_forwards@);
    }
    out
}

/// Milliseconds between two looks at a task whose logs are followed until it
/// exits.
pub const WATCH_BASE_MS: u64 = 250;

pub const WATCH_MAX_SECS: u64 = 5;

/// Failed looks in a row before the watcher gives up.
pub const WATCH_MAX_ERRORS: u32 = 60;

/// A watcher that ends a log stream once the task exits.
#[derive(Debug, Clone, Copy, PartialEq, Eq, Structural)]
pub struct ExitWatcher {
    /// How long to sleep before the next look.
    pub interval: Duration,
    /// Failed looks in a row.
    pub errors: u32,
}

/// The interval after a failed look: twice as long, up to the maximum.
pub open spec fn watch_backoff(interval: nat) -> nat {
    if 2 * interval <= WATCH_MAX_SECS * NANOS_PER_SEC {
        2 * interval
    } else {
        (WATCH_MAX_SECS * NANOS_PER_SEC) as nat
    }
}

/// The interval between two looks at most doubles, never exceeds five seconds
/// and, up to there, always doubles.
pub proof fn law_watch_backoff(interval: nat)
    ensures
        interval <= 2_500_000_000 ==> watch_backoff(interval) == 2 * interval,
        interval >= 2_500_000_000 ==> watch_backoff(interval) == 5_000_000_000,
{
}

impl ExitWatcher {
    pub fn new() -> (w: Self)
        ensures
            w.interval.nanos() == WATCH_BASE_MS * NANOS_PER_MILLI,
            w.errors == 0,
    {
        ExitWatcher { interval: Duration::from_millis(WATCH_BASE_MS), errors: 0 }
    }

    /// Takes in a look at the container; returns whether the stream ends: the
    /// task stopped, the container is gone, or too many looks in a row failed.
    pub fn look(&mut self, seen: &Seen) -> (done: bool)
        ensures
            match *seen {
                Ok(task) => {
                    &&& done == (task matches Some(t) && t.status == TaskStatus::Stopped)
                    &&& final(self).errors == 0
                    &&& final(self).interval.nanos() == WATCH_BASE_MS * NANOS_PER_MILLI
                },
                Err(e) => if e is ContainerNotFound {
                    done && *final(self) == *old(self)
                } else {
                    &&& final(self).errors == if old(self).errors < WATCH_MAX_ERRORS {
                        old(self).errors + 1
                    } else {
                        old(self).errors as int
                    }
                    &&& final(self).interval.nanos() == watch_backoff(old(self).interval.nanos())
                    &&& done == (final(self).errors >= WATCH_MAX_ERRORS)
                },
            },
    {
        match seen {
            Ok(task) => {
                self.errors = 0;
                self.interval = Duration::from_millis(WATCH_BASE_MS);
                match task {
                    Some(t) => t.status == TaskStatus::Stopped,
                    None => false,
                }
            },
            Err(e) => match e {
                Error::ContainerNotFound(_) => true,
                _ => {
                    if self.errors < WATCH_MAX_ERRORS {
                        self.errors = self.errors + 1;
                    }
                    self.interval = self.interval.double().min(
                        &Duration::from_secs(WATCH_MAX_SECS),
                    );
                    self.errors >= WATCH_MAX_ERRORS
                },
            },
        }
    }
}

} // verus!
