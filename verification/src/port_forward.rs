//! User-space TCP port forwarding. Port bindings declared on creation are
//! persisted as container labels so they survive across process restarts.

use vstd::prelude::*;

use crate::consts::PORT_BINDING_LABEL_PREFIX;
use crate::error::{Error, Result};
use crate::maps;
use crate::maps::StringMap;
use crate::numeral;
use crate::text;

verus! {

/// The `(host_port, container_port)` binding that a label declares, if it
/// declares one.
pub open spec fn binding(key: Seq<char>, value: Seq<char>) -> Option<(u16, u16)> {
    match text::stripped(key, PORT_BINDING_LABEL_PREFIX@) {
        Some(rest) => match (
            numeral::parsed(text::utf8(rest), 65535),
            numeral::parsed(text::utf8(value), 65535),
        ) {
            (Some(container_port), Some(host_port)) => Some(
                (host_port as u16, container_port as u16),
            ),
            _ => None,
        },
        None => None,
    }
}

/// The bindings that labels declare, in order.
pub open spec fn bindings(pairs: Seq<maps::Pair>) -> Seq<(u16, u16)>
    decreases pairs.len(),
{
    if pairs.len() == 0 {
        Seq::empty()
    } else {
        match binding(pairs.last().0, pairs.last().1) {
            Some(b) => bindings(pairs.drop_last()).push(b),
            None => bindings(pairs.drop_last()),
        }
    }
}

fn parse_binding(key: &str, value: &str) -> (b: Option<(u16, u16)>)
    ensures
        b == binding(key@, value@),
{
    match text::strip_prefix(key, PORT_BINDING_LABEL_PREFIX) {
        Some(rest) => {
            let container_port = match numeral::parse_unsigned_str(rest.as_str(), 65535) {
                Some(p) => p,
                None => {
                    return None;
                },
            };
            match numeral::parse_unsigned_str(value, 65535) {
                Some(host_port) => Some((host_port as u16, container_port as u16)),
                None => None,
            }
        },
        None => None,
    }
}

/// `(host_port, container_port)` for every well-formed binding label.
pub fn parse_port_binding_labels(labels: &StringMap) -> (out: Vec<(u16, u16)>)
    ensures
        out@ == bindings(labels.pairs()),
{
    let mut out: Vec<(u16, u16)> = Vec::new();
    let n: usize = labels.len();
    let ghost all = labels.pairs();
    assert(all.take(0) =~= Seq::<maps::Pair>::empty());
    for i in 0..n
        invariant
            n == all.len(),
            all == labels.pairs(),
            out@ == bindings(all.take(i as int)),
    {
        assert(all.take(i + 1).drop_last() =~= all.take(i as int));
        if let Some(b) = parse_binding(labels.key(i).as_str(), labels.value(i).as_str()) {
            out.push(b);
        }
    }
    assert(all.take(n as int) =~= all);
    out
}

/// The key of the label for a container port.
pub open spec fn binding_key(container_port: u16) -> Seq<char> {
    PORT_BINDING_LABEL_PREFIX@ + numeral::decimal(container_port as nat)
}

/// The label that is written for a binding declares that binding.
pub proof fn law_binding_label_round_trip(host_port: u16, container_port: u16)
    ensures
        binding(binding_key(container_port), numeral::decimal(host_port as nat)) == Some(
            (host_port, container_port),
        ),
{
    let key = binding_key(container_port);
    let prefix = PORT_BINDING_LABEL_PREFIX@;
    assert(prefix.is_prefix_of(key)) by {
        assert(key.subrange(0, prefix.len() as int) =~= prefix);
    }
    assert(key.skip(prefix.len() as int) =~= numeral::decimal(container_port as nat));
    numeral::lemma_decimal(container_port as nat);
    numeral::lemma_decimal(host_port as nat);
    numeral::lemma_parsed_digits(container_port as nat, 65535);
    numeral::lemma_parsed_digits(host_port as nat, 65535);
}

/// What is bound lies in what the labels declare: every label that declares a
/// binding contributes it, and nothing else does.
pub proof fn law_bindings_are_declared(pairs: Seq<maps::Pair>, b: (u16, u16))
    ensures
        bindings(pairs).contains(b) <==> exists|i: int|
            0 <= i < pairs.len() && binding((#[trigger] pairs[i]).0, pairs[i].1) == Some(b),
    decreases pairs.len(),
{
    if pairs.len() > 0 {
        let front = pairs.drop_last();
        law_bindings_are_declared(front, b);
        let own = binding(pairs.last().0, pairs.last().1);
        if bindings(front).contains(b) {
            let i = choose|i: int|
                0 <= i < front.len() && binding((#[trigger] front[i]).0, front[i].1) == Some(b);
            assert(pairs[i] == front[i]);
            let k = choose|k: int| 0 <= k < bindings(front).len() && bindings(front)[k] == b;
            assert(bindings(pairs)[k] == b);
        }
        if own == Some(b) {
            assert(pairs[pairs.len() - 1] == pairs.last());
            assert(bindings(pairs)[bindings(pairs).len() - 1] == b);
        }
        if bindings(pairs).contains(b) {
            let k = choose|k: int| 0 <= k < bindings(pairs).len() && bindings(pairs)[k] == b;
            if own is Some && k == bindings(pairs).len() - 1 {
            } else {
                assert(bindings(front)[k] == b);
                assert(bindings(front).contains(b));
            }
        }
        if exists|i: int|
            0 <= i < pairs.len() && binding((#[trigger] pairs[i]).0, pairs[i].1) == Some(b) {
            let i = choose|i: int|
                0 <= i < pairs.len() && binding((#[trigger] pairs[i]).0, pairs[i].1) == Some(b);
            if i < front.len() {
                assert(front[i] == pairs[i]);
            }
        }
    } else {
        assert(bindings(pairs) =~= Seq::<(u16, u16)>::empty());
    }
}

/// A label declares a binding exactly if its key is the container port behind
/// the prefix and its value is the host port; two lists of labels declare the
/// bindings of the one and then those of the other.
pub proof fn law_binding(
    port: Seq<char>,
    value: Seq<char>,
    key: Seq<char>,
    c: u16,
    h: u16,
)
    ensures
        numeral::parsed(text::utf8(port), 65535) == Some(c as nat) && numeral::parsed(
            text::utf8(value),
            65535,
        ) == Some(h as nat) ==> binding("containerd-manager.port."@ + port, value) == Some((h, c)),
        numeral::parsed(text::utf8(port), 65535) is None || numeral::parsed(
            text::utf8(value),
            65535,
        ) is None ==> binding("containerd-manager.port."@ + port, value) is None,
        !"containerd-manager.port."@.is_prefix_of(key) ==> binding(key, value) is None,
{
    text::law_stripped(key, "containerd-manager.port."@, port);
}

/// The bindings of labels are listed in the order of the labels.
pub proof fn law_bindings_in_order(first: Seq<maps::Pair>, more: Seq<maps::Pair>)
    ensures
        bindings(first + more) == bindings(first) + bindings(more),
    decreases more.len(),
{
    if more.len() == 0 {
        assert(first + more =~= first);
        assert(bindings(more) =~= Seq::<(u16, u16)>::empty());
        assert(bindings(first) + bindings(more) =~= bindings(first));
    } else {
        law_bindings_in_order(first, more.drop_last());
        assert((first + more).drop_last() =~= first + more.drop_last());
        assert((first + more).last() == more.last());
        assert(bindings(first + more) =~= bindings(first) + bindings(more));
    }
}

/// Default `target_addr` is `127.0.0.1` (works for host networking). For
/// containers with their own IP, set it to the container address.
#[derive(Debug)]
pub struct PortForwardOpts {
    pub target_addr: String,
}

impl Default for PortForwardOpts {
    fn default() -> (o: Self)
        ensures
            o.target_addr@ == "127.0.0.1"@,
    {
        PortForwardOpts { target_addr: String::from_str("127.0.0.1") }
    }
}

/// Sets the fields of [`PortForwardOpts`] one by one.
pub struct PortForwardOptsBuilder {
    pub opts: PortForwardOpts,
}

impl PortForwardOptsBuilder {
    pub fn target_addr(self, addr: &str) -> (b: Self)
        ensures
            b.opts.target_addr@ == addr@,
    {
        PortForwardOptsBuilder { opts: PortForwardOpts { target_addr: String::from_str(addr) } }
    }

    pub fn build(self) -> (o: PortForwardOpts)
        ensures
            o == self.opts,
    {
        self.opts
    }
}

impl PortForwardOpts {
    pub fn builder() -> (b: PortForwardOptsBuilder)
        ensures
            b.opts.target_addr@ == "127.0.0.1"@,
    {
        PortForwardOptsBuilder { opts: PortForwardOpts::default() }
    }
}

/// A forward that is about to start: where it listens and what it dials.
#[derive(Debug)]
pub struct ForwardPlan {
    pub container_id: String,
    pub host_port: u16,
    pub container_port: u16,
    /// Address to listen on.
    pub listen: String,
    /// Address to dial for each connection.
    pub target: String,
}

/// `host:port`.
pub open spec fn address(host: Seq<char>, port: u16) -> Seq<char> {
    host + ":"@ + numeral::decimal(port as nat)
}

/// An address is cut at its first colon into the host and the port that it was
/// made of, for a host without one.
pub proof fn law_address(host: Seq<char>, port: u16)
    requires
        !host.contains(':'),
    ensures
        text::cut(address(host, port), ':') == Some((host, numeral::decimal(port as nat))),
{
    reveal_strlit(":");
    assert(host + ":"@ =~= host.push(':'));
    text::law_cut(address(host, port), host, ':', numeral::decimal(port as nat));
}

fn format_address(host: &str, port: u16) -> (s: String)
    ensures
        s@ == address(host@, port),
{
    let mut s = String::from_str(host);
    s.append(":");
    numeral::push_decimal(&mut s, port as u64);
    s
}

/// Checks the ports of a forward and lays out its two ends.
pub fn start_port_forward(
    container_id: &str,
    host_port: u16,
    container_port: u16,
    opts: &PortForwardOpts,
) -> (out: Result<ForwardPlan>)
    ensures
        match out {
            Ok(p) => {
                &&& host_port != 0 && container_port != 0
                &&& p.container_id@ == container_id@
                &&& p.host_port == host_port
                &&& p.container_port == container_port
                &&& p.listen@ == address("127.0.0.1"@, host_port)
                &&& p.target@ == address(opts.target_addr@, container_port)
            },
            Err(e) => e@ == crate::error::ErrorSpec::PortForward(
                if host_port == 0 {
                    "host_port cannot be 0"@
                } else {
                    "container_port cannot be 0"@
                },
            ) && (host_port == 0 || container_port == 0),
        },
{
    if host_port == 0 {
        return Err(Error::PortForward(String::from_str("host_port cannot be 0")));
    }
    if container_port == 0 {
        return Err(Error::PortForward(String::from_str("container_port cannot be 0")));
    }
    Ok(
        ForwardPlan {
            container_id: String::from_str(container_id),
            host_port,
            container_port,
            listen: format_address("127.0.0.1", host_port),
            target: format_address(opts.target_addr.as_str(), container_port),
        },
    )
}

/// The stages of setting up a listener, by what is said when they fail.
#[derive(Debug, Clone, Copy, PartialEq, Eq, Structural)]
pub enum ListenStage {
    Bind,
    NonBlocking,
    Listener,
}

/// What is said when a listener cannot be set up.
pub open spec fn listen_complaint(stage: ListenStage, port: u16, reason: Seq<char>) -> Seq<char> {
    match stage {
        ListenStage::Bind => "failed to bind port "@ + numeral::decimal(port as nat) + ": "@
            + reason,
        ListenStage::NonBlocking => "failed to set non-blocking on port "@ + numeral::decimal(
            port as nat,
        ) + ": "@ + reason,
        ListenStage::Listener => "failed to create tokio listener: "@ + reason,
    }
}

/// A listener that cannot be bound, or cannot be polled, is complained of by its
/// port, and each complaint ends in the reason.
pub proof fn law_listen_complaint(port: u16, reason: Seq<char>)
    ensures
        listen_complaint(ListenStage::Bind, port, reason) == "failed to bind port "@
            + numeral::decimal(port as nat) + ": "@ + reason,
        listen_complaint(ListenStage::NonBlocking, port, reason)
            == "failed to set non-blocking on port "@ + numeral::decimal(port as nat) + ": "@
            + reason,
        listen_complaint(ListenStage::Listener, port, reason)
            == "failed to create tokio listener: "@ + reason,
{
}

/// The error when a listener cannot be set up.
pub fn listen_failed(stage: ListenStage, host_port: u16, reason: &str) -> (e: Error)
    ensures
        e@ == crate::error::ErrorSpec::PortForward(listen_complaint(stage, host_port, reason@)),
{
    let mut message = match stage {
        ListenStage::Bind => String::from_str("failed to bind port "),
        ListenStage::NonBlocking => String::from_str("failed to set non-blocking on port "),
        ListenStage::Listener => String::from_str("failed to create tokio listener: "),
    };
    match stage {
        ListenStage::Listener => {},
        _ => {
            numeral::push_decimal(&mut message, host_port as u64);
            message.append(": ");
        },
    }
    message.append(reason);
    Error::PortForward(message)
}

} // verus!
