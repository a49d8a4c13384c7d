//! Bridge networking for containerd containers via OCI hooks.
//!
//! Each container in bridge mode gets an isolated network namespace connected
//! to a shared bridge (`cni0`, 10.88.0.1/16). A socat proxy in the VM's root
//! network namespace forwards a host-loopback port to a port of the container.
//!
//! 1. **prestart hook**: creates a veth pair, attaches the host end to the
//!    bridge, moves the container end into the container's network namespace,
//!    and configures addresses and the default route.
//! 2. **poststart hook**: launches a background `socat` for each port binding.
//! 3. **poststop hook**: kills the socat processes and deletes the veth host
//!    end.

use std::collections::HashSet;

use rand::seq::IteratorRandom;
use vstd::prelude::*;

use crate::consts::{
    BRIDGE_GATEWAY, BRIDGE_IP_LABEL, BRIDGE_NAME, CONTAINER_SUBNET_PREFIX,
};
use crate::error::{Error, Result};
use crate::maps::StringMap;
use crate::numeral;
use crate::outside;
use crate::text;

verus! {

broadcast use vstd::std_specs::hash::group_hash_axioms;

/// The text of an IPv4 address.
pub open spec fn dotted(a: u8, b: u8, c: u8, d: u8) -> Seq<char> {
    numeral::decimal(a as nat) + ("."@ + (numeral::decimal(b as nat) + ("."@ + (numeral::decimal(
        c as nat,
    ) + ("."@ + numeral::decimal(d as nat))))))
}

/// Whether `s` is the text of an IPv4 address that ends in `d`.
pub open spec fn ends_in_octet(s: Seq<char>, d: u8) -> bool {
    exists|a: u8, b: u8, c: u8| s == #[trigger] dotted(a, b, c, d)
}

/// An address ends in its fourth number.
pub proof fn law_dotted(a: u8, b: u8, c: u8, d: u8)
    ensures
        ends_in_octet(
            numeral::decimal(a as nat) + "."@ + numeral::decimal(b as nat) + "."@
                + numeral::decimal(c as nat) + "."@ + numeral::decimal(d as nat),
            d,
        ),
{
    let s = numeral::decimal(a as nat) + "."@ + numeral::decimal(b as nat) + "."@
        + numeral::decimal(c as nat) + "."@ + numeral::decimal(d as nat);
    assert(s =~= dotted(a, b, c, d));
}

/// A decimal numeral in front of a dot is what stands in front of the first
/// dot.
proof fn lemma_cut_numeral(n: nat, rest: Seq<char>)
    ensures
        text::cut(numeral::decimal(n) + ("."@ + rest), '.') == Some((numeral::decimal(n), rest)),
{
    reveal_strlit(".");
    let d = numeral::decimal(n);
    let s = d + ("."@ + rest);
    numeral::lemma_decimal(n);
    assert forall|j: int| 0 <= j < d.len() implies s[j] != '.' by {
        assert(s[j] == d[j]);
    }
    assert(s[d.len() as int] == '.');
    text::lemma_position_is(s, '.', d.len() as int);
    assert(s.take(d.len() as int) =~= d);
    assert(s.skip(d.len() as int + 1) =~= rest);
}

/// The value of a canonical octet: a numeral without leading zeros, at most
/// 255.
fn canonical_octet(s: &str) -> (n: Option<u8>)
    ensures
        match n {
            Some(v) => s@ == numeral::decimal(v as nat),
            None => forall|v: u8| s@ != #[trigger] numeral::decimal(v as nat),
        },
{
    proof {
        assert forall|v: u8| s@ == #[trigger] numeral::decimal(v as nat) implies numeral::parsed(
            text::utf8(s@),
            255,
        ) == Some(v as nat) by {
            numeral::lemma_decimal(v as nat);
            numeral::lemma_parsed_digits(v as nat, 255);
        }
    }
    match numeral::parse_unsigned_str(s, 255) {
        Some(v) => {
            let octet: u8 = v as u8;
            let canonical = numeral::to_decimal(v);
            if text::str_eq(canonical.as_str(), s) {
                Some(octet)
            } else {
                None
            }
        },
        None => None,
    }
}

/// Last octet of a well-formed IPv4 string, or `None` if it isn't one.
pub fn parse_octet(ip: &str) -> (octet: Option<u8>)
    ensures
        match octet {
            Some(d) => ends_in_octet(ip@, d),
            None => forall|d: u8| !#[trigger] ends_in_octet(ip@, d),
        },
{
    proof {
        assert forall|a: u8, b: u8, c: u8, d: u8| ip@ == #[trigger] dotted(a, b, c, d) implies {
            let r3 = numeral::decimal(d as nat);
            let r2 = numeral::decimal(c as nat) + ("."@ + r3);
            let r1 = numeral::decimal(b as nat) + ("."@ + r2);
            &&& text::cut(ip@, '.') == Some((numeral::decimal(a as nat), r1))
            &&& text::cut(r1, '.') == Some((numeral::decimal(b as nat), r2))
            &&& text::cut(r2, '.') == Some((numeral::decimal(c as nat), r3))
        } by {
            let r3 = numeral::decimal(d as nat);
            let r2 = numeral::decimal(c as nat) + ("."@ + r3);
            let r1 = numeral::decimal(b as nat) + ("."@ + r2);
            lemma_cut_numeral(a as nat, r1);
            lemma_cut_numeral(b as nat, r2);
            lemma_cut_numeral(c as nat, r3);
        }
    }
    let (first, rest) = match text::split_once(ip, '.') {
        Some(halves) => halves,
        None => {
            return None;
        },
    };
    let (second, rest2) = match text::split_once(rest.as_str(), '.') {
        Some(halves) => halves,
        None => {
            return None;
        },
    };
    let (third, fourth) = match text::split_once(rest2.as_str(), '.') {
        Some(halves) => halves,
        None => {
            return None;
        },
    };
    let a = match canonical_octet(first.as_str()) {
        Some(v) => v,
        None => {
            return None;
        },
    };
    let b = match canonical_octet(second.as_str()) {
        Some(v) => v,
        None => {
            return None;
        },
    };
    let c = match canonical_octet(third.as_str()) {
        Some(v) => v,
        None => {
            return None;
        },
    };
    match canonical_octet(fourth.as_str()) {
        Some(d) => {
            proof {
                lemma_uncut(ip@, '.');
                lemma_uncut(rest@, '.');
                lemma_uncut(rest2@, '.');
                reveal_strlit(".");
                assert("."@ =~= seq!['.']);
                assert(ip@ == dotted(a, b, c, d));
            }
            Some(d)
        },
        None => None,
    }
}

/// The two halves around a character put together again.
proof fn lemma_uncut(s: Seq<char>, c: char)
    requires
        text::cut(s, c) is Some,
    ensures
        s == (text::cut(s, c)->0).0 + (seq![c] + (text::cut(s, c)->0).1),
{
    text::lemma_position(s, c);
    let i = text::position(s, c)->0;
    assert(s =~= s.take(i) + (seq![c] + s.skip(i + 1)));
}

/// The last octet of an address is read back from its text, whatever the other
/// octets are.
pub proof fn law_octet_is_unique(s: Seq<char>, d: u8, e: u8)
    requires
        ends_in_octet(s, d),
        ends_in_octet(s, e),
    ensures
        d == e,
{
    let (a, b, c) = choose|a: u8, b: u8, c: u8| s == #[trigger] dotted(a, b, c, d);
    let (a2, b2, c2) = choose|a: u8, b: u8, c: u8| s == #[trigger] dotted(a, b, c, e);
    let r3 = numeral::decimal(d as nat);
    let r2 = numeral::decimal(c as nat) + ("."@ + r3);
    let r1 = numeral::decimal(b as nat) + ("."@ + r2);
    lemma_cut_numeral(a as nat, r1);
    lemma_cut_numeral(b as nat, r2);
    lemma_cut_numeral(c as nat, r3);
    let q3 = numeral::decimal(e as nat);
    let q2 = numeral::decimal(c2 as nat) + ("."@ + q3);
    let q1 = numeral::decimal(b2 as nat) + ("."@ + q2);
    lemma_cut_numeral(a2 as nat, q1);
    lemma_cut_numeral(b2 as nat, q2);
    lemma_cut_numeral(c2 as nat, q3);
    assert(r3 == q3);
    numeral::lemma_decimal(d as nat);
    numeral::lemma_decimal(e as nat);
    numeral::lemma_digits(d as nat);
    numeral::lemma_digits(e as nat);
}

/// Whether the labels record an address in the bridge subnet that ends in `d`.
pub open spec fn label_octet(labels: Map<Seq<char>, Seq<char>>, d: u8) -> bool {
    labels.dom().contains(BRIDGE_IP_LABEL@) && ends_in_octet(labels[BRIDGE_IP_LABEL@], d)
}

/// Whether one of the containers holds an address that ends in `d`.
pub open spec fn octet_in_use(containers: Seq<StringMap>, d: u8) -> bool {
    exists|i: int| 0 <= i < containers.len() && label_octet((#[trigger] containers[i])@, d)
}

/// The last octets of the bridge addresses that containers with these labels
/// hold.
pub open spec fn octets_in_use(containers: Seq<StringMap>) -> Set<u8> {
    Set::new(|d: u8| octet_in_use(containers, d))
}

/// The last octets of the bridge addresses that containers with these labels
/// hold.
pub fn used_octets(containers: &Vec<StringMap>) -> (used: HashSet<u8>)
    ensures
        used@ == octets_in_use(containers@),
{
    let mut used: HashSet<u8> = HashSet::new();
    let n: usize = containers.len();
    for i in 0..n
        invariant
            n == containers@.len(),
            forall|d: u8|
                #[trigger] used@.contains(d) <==> octet_in_use(containers@.take(i as int), d),
    {
        let ghost before = used@;
        let ghost now = containers@.take(i as int);
        let ghost next = containers@.take(i + 1);
        let mut found: Option<u8> = None;
        match containers[i].get(BRIDGE_IP_LABEL) {
            Some(ip) => {
                found = parse_octet(ip.as_str());
            },
            None => {},
        }
        if let Some(octet) = found {
            used.insert(octet);
        }
        proof {
            assert forall|d: u8| label_octet(containers@[i as int]@, d) <==> found == Some(d) by {
                if label_octet(containers@[i as int]@, d) {
                    match found {
                        Some(e) => {
                            law_octet_is_unique(containers@[i as int]@[BRIDGE_IP_LABEL@], d, e);
                        },
                        None => {},
                    }
                }
            }
            assert forall|d: u8| #[trigger] used@.contains(d) <==> octet_in_use(next, d) by {
                if octet_in_use(now, d) {
                    let j = choose|j: int| 0 <= j < now.len() && label_octet(
                        (#[trigger] now[j])@,
                        d,
                    );
                    assert(next[j] == now[j]);
                }
                if label_octet(containers@[i as int]@, d) {
                    assert(next[i as int] == containers@[i as int]);
                }
                if octet_in_use(next, d) {
                    let j = choose|j: int| 0 <= j < next.len() && label_octet(
                        (#[trigger] next[j])@,
                        d,
                    );
                    if j < i {
                        assert(now[j] == next[j]);
                    }
                }
            }
        }
    }
    assert(containers@.take(n as int) =~= containers@);
    assert(used@ =~= octets_in_use(containers@));
    used
}

/// The octets that are still free, in ascending order.
pub open spec fn free_below(used: Set<u8>, end: int) -> Seq<u8>
    decreases end,
{
    if end <= 2 {
        Seq::empty()
    } else if used.contains((end - 1) as u8) {
        free_below(used, end - 1)
    } else {
        free_below(used, end - 1).push((end - 1) as u8)
    }
}

/// The octets from 2 to 254 that are not in use.
pub fn free_octets(used: &HashSet<u8>) -> (free: Vec<u8>)
    ensures
        free@ == free_below(used@, 255),
{
    let mut free: Vec<u8> = Vec::new();
    for o in 2u8..255u8
        invariant
            free@ == free_below(used@, o as int),
    {
        if !used.contains(&o) {
            free.push(o);
        }
    }
    free
}

proof fn lemma_free_below(used: Set<u8>, end: int)
    requires
        end <= 255,
    ensures
        forall|o: u8|
            #[trigger] free_below(used, end).contains(o) <==> 2 <= o < end && !used.contains(o),
    decreases end,
{
    if end > 2 {
        lemma_free_below(used, end - 1);
        let o = (end - 1) as u8;
        let less = free_below(used, end - 1);
        assert forall|x: u8| #[trigger] free_below(used, end).contains(x) <==> 2 <= x < end
            && !used.contains(x) by {
            if !used.contains(o) {
                assert(free_below(used, end) == less.push(o));
                if less.push(o).contains(x) {
                    let k = choose|k: int| 0 <= k < less.push(o).len() && less.push(o)[k] == x;
                    if k < less.len() {
                        assert(less[k] == x);
                        assert(less.contains(x));
                    }
                }
                if less.contains(x) {
                    let k = choose|k: int| 0 <= k < less.len() && less[k] == x;
                    assert(less.push(o)[k] == x);
                }
                if x == o {
                    assert(less.push(o)[less.len() as int] == o);
                }
            }
        }
    } else {
        assert(free_below(used, end) =~= Seq::<u8>::empty());
    }
}

/// Free octets are those from 2 to 254 that are not in use, each once and in
/// ascending order.
pub proof fn law_free_octets(used: Set<u8>, o: u8)
    ensures
        free_below(used, 255).contains(o) <==> 2 <= o <= 254 && !used.contains(o),
        forall|i: int, j: int|
            0 <= i < j < free_below(used, 255).len() ==> #[trigger] free_below(used, 255)[i]
                < #[trigger] free_below(used, 255)[j],
{
    lemma_free_below(used, 255);
    lemma_free_ascending(used, 255);
}

proof fn lemma_free_ascending(used: Set<u8>, end: int)
    requires
        end <= 255,
    ensures
        forall|i: int|
            0 <= i < free_below(used, end).len() ==> #[trigger] free_below(used, end)[i] < end,
        forall|i: int, j: int|
            0 <= i < j < free_below(used, end).len() ==> #[trigger] free_below(used, end)[i]
                < #[trigger] free_below(used, end)[j],
    decreases end,
{
    if end > 2 {
        lemma_free_ascending(used, end - 1);
        let less = free_below(used, end - 1);
        let all = free_below(used, end);
        assert forall|i: int| 0 <= i < all.len() implies #[trigger] all[i] < end by {
            if i < less.len() {
                assert(all[i] == less[i]);
            }
        }
        assert forall|i: int, j: int| 0 <= i < j < all.len() implies #[trigger] all[i]
            < #[trigger] all[j] by {
            assert(all[i] == less[i]);
            if j < less.len() {
                assert(all[j] == less[j]);
            }
        }
    }
}

/// An octet is in use exactly if one of the containers holds an address that
/// ends in it; a container without a bridge address uses none.
pub proof fn law_octet_in_use(containers: Seq<StringMap>, more: StringMap, d: u8)
    ensures
        !octet_in_use(Seq::empty(), d),
        !more@.dom().contains("containerd-manager.bridge.ip"@) ==> octet_in_use(
            containers.push(more),
            d,
        ) == octet_in_use(containers, d),
        more@.dom().contains("containerd-manager.bridge.ip"@) ==> octet_in_use(
            containers.push(more),
            d,
        ) == (octet_in_use(containers, d) || ends_in_octet(
            more@["containerd-manager.bridge.ip"@],
            d,
        )),
        octets_in_use(containers).contains(d) == octet_in_use(containers, d),
{
    let all = containers.push(more);
    assert(all[containers.len() as int] == more);
    if octet_in_use(containers, d) {
        let i = choose|i: int|
            0 <= i < containers.len() && label_octet((#[trigger] containers[i])@, d);
        assert(all[i] == containers[i]);
    }
    if octet_in_use(all, d) {
        let i = choose|i: int| 0 <= i < all.len() && label_octet((#[trigger] all[i])@, d);
        if i < containers.len() {
            assert(all[i] == containers[i]);
        }
    }
}

/// `rand::seq::IteratorRandom::choose` with the thread's generator: a random
/// element, or `None` only if there is none.
#[verifier::external_body]
fn choose_random(from: &[u8]) -> (picked: Option<u8>)
    ensures
        match picked {
            Some(o) => from@.contains(o),
            None => from@.len() == 0,
        },
{
    from.iter().copied().choose(&mut rand::rng())
}

/// The error when every octet is in use.
pub open spec fn exhausted(in_use: nat) -> crate::error::ErrorSpec {
    crate::error::ErrorSpec::ResourceExhausted(
        "no free bridge IPs in "@ + CONTAINER_SUBNET_PREFIX@ + ".0/24 ("@ + numeral::decimal(in_use)
            + " octets in use)"@,
    )
}

/// The error of an exhausted pool names the subnet and how much of it is in use.
pub proof fn law_exhausted(in_use: nat)
    ensures
        exhausted(in_use) matches crate::error::ErrorSpec::ResourceExhausted(said) && said
            == "no free bridge IPs in 10.88.1.0/24 ("@ + numeral::decimal(in_use)
            + " octets in use)"@,
{
    reveal_strlit("no free bridge IPs in ");
    reveal_strlit("10.88.1");
    reveal_strlit(".0/24 (");
    reveal_strlit("no free bridge IPs in 10.88.1.0/24 (");
    assert("no free bridge IPs in "@ + "10.88.1"@ + ".0/24 ("@
        =~= "no free bridge IPs in 10.88.1.0/24 ("@);
}

/// The octet that was picked, or the error if there was none to pick.
pub fn octet_or_exhausted(picked: Option<u8>, in_use: usize) -> (out: Result<u8>)
    ensures
        match picked {
            Some(o) => out == Ok::<u8, Error>(o),
            None => out matches Err(e) && e@ == exhausted(in_use as nat),
        },
{
    match picked {
        Some(o) => Ok(o),
        None => {
            let mut message = String::from_str("no free bridge IPs in ");
            message.append(CONTAINER_SUBNET_PREFIX);
            message.append(".0/24 (");
            numeral::push_decimal(&mut message, in_use as u64);
            message.append(" octets in use)");
            Err(Error::ResourceExhausted(message))
        },
    }
}

/// Random unused octet in `2..=254`, or `Err` if all are taken.
pub fn pick_free_octet(used: &HashSet<u8>) -> (out: Result<u8>)
    ensures
        match out {
            Ok(o) => 2 <= o <= 254 && !used@.contains(o),
            Err(e) => (forall|o: u8| 2 <= o <= 254 ==> #[trigger] used@.contains(o)) && e@
                == exhausted(used@.len()),
        },
{
    let free = free_octets(used);
    proof {
        lemma_free_below(used@, 255);
    }
    let picked = choose_random(free.as_slice());
    proof {
        assert forall|o: u8| picked is None && 2 <= o <= 254 implies #[trigger] used@.contains(
            o,
        ) by {
            assert(!free_below(used@, 255).contains(o));
        }
    }
    octet_or_exhausted(picked, used.len())
}

/// The bridge address with a given last octet.
pub open spec fn bridge_ip(octet: u8) -> Seq<char> {
    CONTAINER_SUBNET_PREFIX@ + "."@ + numeral::decimal(octet as nat)
}

/// Picks a `10.88.1.x` address that no container with these labels holds.
pub fn alloc_bridge_ip(containers: &Vec<StringMap>) -> (out: Result<String>)
    ensures
        match out {
            Ok(ip) => exists|o: u8|
                2 <= o <= 254 && ip@ == #[trigger] bridge_ip(o) && !octet_in_use(containers@, o),
            Err(e) => (forall|o: u8| 2 <= o <= 254 ==> #[trigger] octet_in_use(containers@, o))
                && e@ == exhausted(octets_in_use(containers@).len()),
        },
{
    let used = used_octets(containers);
    match pick_free_octet(&used) {
        Ok(octet) => {
            let mut ip = String::from_str(CONTAINER_SUBNET_PREFIX);
            ip.append(".");
            numeral::push_decimal(&mut ip, octet as u64);
            assert(!used@.contains(octet));
            assert(ip@ == bridge_ip(octet));
            Ok(ip)
        },
        Err(e) => {
            assert forall|o: u8| 2 <= o <= 254 implies #[trigger] octet_in_use(
                containers@,
                o,
            ) by {
                assert(used@.contains(o));
            }
            Err(e)
        },
    }
}

/// The address allocated for an octet is counted as using that octet.
pub proof fn law_bridge_ip_occupies_its_octet(octet: u8)
    ensures
        ends_in_octet(bridge_ip(octet), octet),
{
    reveal_strlit("10.88.1");
    reveal_strlit(".");
    let ip = bridge_ip(octet);
    assert(numeral::decimal(1) =~= seq!['1']);
    assert(numeral::decimal(10) =~= seq!['1', '0']) by {
        reveal_with_fuel(numeral::decimal, 2);
    }
    assert(numeral::decimal(88) =~= seq!['8', '8']) by {
        reveal_with_fuel(numeral::decimal, 2);
    }
    assert(ip =~= dotted(10, 88, 1, octet));
}

/// Addresses are those of the `10.88.1.0/24` subnet, and no two octets share
/// one.
pub proof fn law_bridge_ip(octet: u8, other: u8)
    ensures
        bridge_ip(octet) == "10.88.1."@ + numeral::decimal(octet as nat),
        bridge_ip(octet) == bridge_ip(other) ==> octet == other,
{
    reveal_strlit("10.88.1");
    reveal_strlit(".");
    reveal_strlit("10.88.1.");
    assert("10.88.1"@ + "."@ =~= "10.88.1."@);
    if bridge_ip(octet) == bridge_ip(other) {
        law_bridge_ip_occupies_its_octet(octet);
        law_bridge_ip_occupies_its_octet(other);
        law_octet_is_unique(bridge_ip(octet), octet, other);
    }
}

/// An allocated address differs from every address that a container holds.
pub proof fn law_allocated_ip_is_fresh(containers: Seq<StringMap>, octet: u8, i: int)
    requires
        !octet_in_use(containers, octet),
        0 <= i < containers.len(),
        containers[i]@.dom().contains(BRIDGE_IP_LABEL@),
    ensures
        containers[i]@[BRIDGE_IP_LABEL@] != bridge_ip(octet),
{
    if containers[i]@[BRIDGE_IP_LABEL@] == bridge_ip(octet) {
        law_bridge_ip_occupies_its_octet(octet);
        assert(label_octet(containers[i]@, octet));
    }
}

/// The stages of picking a free host port.
#[derive(Debug, Clone, Copy, PartialEq, Eq, Structural)]
pub enum PortStage {
    Bind,
    LocalAddr,
}

/// The error when no free host port can be picked: better than a port that may
/// be in use already.
pub fn pick_free_port_failed(stage: PortStage, reason: &str) -> (e: Error)
    ensures
        e@ == crate::error::ErrorSpec::ResourceExhausted(
            match stage {
                PortStage::Bind => "could not bind ephemeral host port: "@,
                PortStage::LocalAddr => "could not read ephemeral port local_addr: "@,
            } + reason@,
        ),
{
    let mut message = match stage {
        PortStage::Bind => String::from_str("could not bind ephemeral host port: "),
        PortStage::LocalAddr => String::from_str("could not read ephemeral port local_addr: "),
    };
    message.append(reason);
    Error::ResourceExhausted(message)
}

/// 64-bit FNV-1a hash.
pub open spec fn fnv1a(s: Seq<u8>) -> u64
    decreases s.len(),
{
    if s.len() == 0 {
        0xcbf2_9ce4_8422_2325
    } else {
        (fnv1a(s.drop_last()) ^ (s.last() as u64)).wrapping_mul(0x0000_0100_0000_01b3)
    }
}

/// The last `width` hexadecimal digits of `n`, in lower case.
pub open spec fn hex_padded(n: nat, width: nat) -> Seq<char>
    decreases width,
{
    if width == 0 {
        Seq::empty()
    } else {
        hex_padded(n / 16, (width - 1) as nat).push(outside::hex_digit((n % 16) as int))
    }
}

/// The veth name of a container: `cm` and 52 bits of a hash, in 13 digits.
pub open spec fn veth(id: Seq<char>) -> Seq<char> {
    "cm"@ + hex_padded((fnv1a(text::utf8(id)) & 0x000f_ffff_ffff_ffff) as nat, 13)
}

/// The hash takes in one byte after the other: exclusive or, then times the
/// prime, from the offset basis on.
pub proof fn law_fnv1a(s: Seq<u8>, b: u8)
    ensures
        fnv1a(Seq::empty()) == 14_695_981_039_346_656_037,
        fnv1a(s.push(b)) == (fnv1a(s) ^ (b as u64)).wrapping_mul(1_099_511_628_211),
{
    assert(s.push(b).drop_last() =~= s);
}

/// A veth name is `cm` and 13 hexadecimal digits, which count in sixteens.
pub proof fn law_veth(id: Seq<char>, n: nat, width: nat, d: nat)
    requires
        d < 16,
    ensures
        veth(id).len() == 15,
        veth(id) == "cm"@ + hex_padded((fnv1a(text::utf8(id)) & 0x000f_ffff_ffff_ffff) as nat, 13),
        hex_padded(n, width).len() == width,
        hex_padded(16 * n + d, width + 1) == hex_padded(n, width).push(
            if d < 10 {
                (48 + d) as char
            } else {
                (87 + d) as char
            },
        ),
{
    reveal_strlit("cm");
    lemma_hex_padded_len((fnv1a(text::utf8(id)) & 0x000f_ffff_ffff_ffff) as nat, 13);
    lemma_hex_padded_len(n, width);
    assert((16 * n + d) / 16 == n);
    assert((16 * n + d) % 16 == d);
}

fn push_hex_padded(s: &mut String, n: u64, width: u64)
    ensures
        final(s)@ == old(s)@ + hex_padded(n as nat, width as nat),
    decreases width,
{
    if width > 0 {
        push_hex_padded(s, n / 16, width - 1);
        let d: u8 = (n % 16) as u8;
        if d < 10 {
            s.push((48 + d) as char);
        } else {
            s.push((87 + d) as char);
        }
    }
    assert(s@ =~= old(s)@ + hex_padded(n as nat, width as nat));
}

/// 15-char veth name (Linux limit) derived via FNV-1a hash so common prefixes
/// (e.g. `foo` vs `foo-2`) don't collide.
pub fn veth_name(container_id: &str) -> (name: String)
    ensures
        name@ == veth(container_id@),
        name@.len() == 15,
{
    let bytes = container_id.as_bytes();
    let n: usize = bytes.len();
    let mut hash: u64 = 0xcbf2_9ce4_8422_2325;
    assert(bytes@.take(0) =~= Seq::<u8>::empty());
    for i in 0..n
        invariant
            n == bytes@.len(),
            hash == fnv1a(bytes@.take(i as int)),
    {
        assert(bytes@.take(i + 1).drop_last() =~= bytes@.take(i as int));
        hash = (hash ^ (bytes[i] as u64)).wrapping_mul(0x0000_0100_0000_01b3);
    }
    assert(bytes@.take(n as int) =~= bytes@);
    let mut name = String::from_str("cm");
    push_hex_padded(&mut name, hash & 0x000f_ffff_ffff_ffff, 13);
    proof {
        reveal_strlit("cm");
        lemma_hex_padded_len((hash & 0x000f_ffff_ffff_ffff) as nat, 13);
    }
    name
}

proof fn lemma_hex_padded_len(n: nat, width: nat)
    ensures
        hex_padded(n, width).len() == width,
    decreases width,
{
    if width > 0 {
        lemma_hex_padded_len(n / 16, (width - 1) as nat);
    }
}

pub const PRESTART_HEAD: &'static str = "
STATE=$(cat)
CONTAINER_PID=$(echo \"$STATE\" | python3 -c \"import sys,json; d=json.load(sys.stdin); print(d.get('pid',0))\")
HOST_VETH=\"";

pub const PRESTART_TAIL: &'static str = "\"

ip link show \"$BRIDGE\" >/dev/null 2>&1 || ip link add \"$BRIDGE\" type bridge
ip addr add \"$GATEWAY/16\" dev \"$BRIDGE\" 2>/dev/null || true
ip link set \"$BRIDGE\" up

# `netns` option places the peer in the container's netns directly, so 'eth0'
# never appears in the host namespace (which would conflict with the VM NIC).
ip link add \"$HOST_VETH\" type veth peer name eth0 netns /proc/$CONTAINER_PID/ns/net
ip link set \"$HOST_VETH\" master \"$BRIDGE\"
ip link set \"$HOST_VETH\" up

nsenter --net=/proc/$CONTAINER_PID/ns/net ip addr add \"$CONTAINER_IP/16\" dev eth0
nsenter --net=/proc/$CONTAINER_PID/ns/net ip link set eth0 up
nsenter --net=/proc/$CONTAINER_PID/ns/net ip link set lo up
nsenter --net=/proc/$CONTAINER_PID/ns/net ip route add default via \"$GATEWAY\" 2>/dev/null || true

sysctl -w net.ipv4.ip_forward=1 >/dev/null
iptables -t nat -C POSTROUTING -s 10.88.0.0/16 ! -d 10.88.0.0/16 -j MASQUERADE 2>/dev/null || \\
  iptables -t nat -A POSTROUTING -s 10.88.0.0/16 ! -d 10.88.0.0/16 -j MASQUERADE
";

/// The prestart script.
pub open spec fn prestart(ip: Seq<char>, id: Seq<char>) -> Seq<char> {
    PRESTART_HEAD@ + veth(id) + "\"\nBRIDGE=\""@ + BRIDGE_NAME@ + "\"\nGATEWAY=\""@
        + BRIDGE_GATEWAY@ + "\"\nCONTAINER_IP=\""@ + ip + PRESTART_TAIL@
}

/// The prestart script is told which veth and which address the container gets,
/// and which bridge and gateway it is attached to.
pub proof fn law_prestart(ip: Seq<char>, id: Seq<char>)
    ensures
        prestart(ip, id) == PRESTART_HEAD@ + veth(id)
            + "\"\nBRIDGE=\"cni0\"\nGATEWAY=\"10.88.0.1\"\nCONTAINER_IP=\""@ + ip
            + PRESTART_TAIL@,
{
    reveal_strlit("\"\nBRIDGE=\"");
    reveal_strlit("cni0");
    reveal_strlit("\"\nGATEWAY=\"");
    reveal_strlit("10.88.0.1");
    reveal_strlit("\"\nCONTAINER_IP=\"");
    reveal_strlit("\"\nBRIDGE=\"cni0\"\nGATEWAY=\"10.88.0.1\"\nCONTAINER_IP=\"");
    let middle = "\"\nBRIDGE=\"cni0\"\nGATEWAY=\"10.88.0.1\"\nCONTAINER_IP=\""@;
    assert("\"\nBRIDGE=\""@ + "cni0"@ + "\"\nGATEWAY=\""@ + "10.88.0.1"@
        + "\"\nCONTAINER_IP=\""@ =~= middle);
    assert(prestart(ip, id) =~= PRESTART_HEAD@ + veth(id) + middle + ip + PRESTART_TAIL@);
}

/// Sets up the veth pair, the bridge and the routes of a container.
pub fn prestart_hook_script(container_ip: &str, container_id: &str) -> (script: String)
    ensures
        script@ == prestart(container_ip@, container_id@),
{
    let mut script = String::from_str(PRESTART_HEAD);
    script.append(veth_name(container_id).as_str());
    script.append("\"\nBRIDGE=\"");
    script.append(BRIDGE_NAME);
    script.append("\"\nGATEWAY=\"");
    script.append(BRIDGE_GATEWAY);
    script.append("\"\nCONTAINER_IP=\"");
    script.append(container_ip);
    script.append(PRESTART_TAIL);
    script
}

/// The file that holds the pid of the socat for a container's port.
pub open spec fn pid_file(id: Seq<char>, port: nat) -> Seq<char> {
    "/tmp/socat-"@ + id + "-"@ + numeral::decimal(port) + ".pid"@
}

/// The file that the socat for a container's port logs to.
pub open spec fn log_file(id: Seq<char>, port: nat) -> Seq<char> {
    "/tmp/socat-"@ + id + "-"@ + numeral::decimal(port) + ".log"@
}

/// Safe to interpolate `container_id` unquoted: [`crate::types::ContainerId`]
/// rejects path separators and shell metacharacters.
pub fn socat_pid_file(container_id: &str, container_port: u16) -> (path: String)
    ensures
        path@ == pid_file(container_id@, container_port as nat),
{
    let mut path = String::from_str("/tmp/socat-");
    path.append(container_id);
    path.append("-");
    numeral::push_decimal(&mut path, container_port as u64);
    path.append(".pid");
    path
}

pub fn socat_log_file(container_id: &str, container_port: u16) -> (path: String)
    ensures
        path@ == log_file(container_id@, container_port as nat),
{
    let mut path = String::from_str("/tmp/socat-");
    path.append(container_id);
    path.append("-");
    numeral::push_decimal(&mut path, container_port as u64);
    path.append(".log");
    path
}

/// The part of the poststart script for one binding.
pub open spec fn poststart_block(id: Seq<char>, ip: Seq<char>, port: (u16, u16)) -> Seq<char> {
    "nohup /usr/bin/socat TCP-LISTEN:"@ + numeral::decimal(port.1 as nat)
        + ",fork,reuseaddr TCP:"@ + ip + ":"@ + numeral::decimal(port.0 as nat) + " \\\n  >"@
        + log_file(id, port.0 as nat) + " 2>&1 &\nSOCAT_PID=$!\necho $SOCAT_PID > "@ + pid_file(
        id,
        port.0 as nat,
    )
        + "\n# Give socat a moment to fail-fast on exec / bind errors.\nsleep 0.1\nif ! kill -0 $SOCAT_PID 2>/dev/null; then\necho \"poststart: socat $SOCAT_PID exited (port "@
        + numeral::decimal(port.1 as nat) + ")\" >&2\ncat "@ + log_file(id, port.0 as nat)
        + " >&2 2>/dev/null || true\nrm -f "@ + pid_file(id, port.0 as nat) + "\nexit 1\nfi\n"@
}

/// The poststart script: one block per binding.
pub open spec fn poststart(id: Seq<char>, ip: Seq<char>, ports: Seq<(u16, u16)>) -> Seq<char>
    decreases ports.len(),
{
    if ports.len() == 0 {
        "\n"@
    } else {
        poststart(id, ip, ports.drop_last()) + poststart_block(id, ip, ports.last())
    }
}

fn poststart_piece(
    container_id: &str,
    container_ip: &str,
    container_port: u16,
    host_port: u16,
) -> (piece: String)
    ensures
        piece@ == poststart_block(container_id@, container_ip@, (container_port, host_port)),
{
    let pid = socat_pid_file(container_id, container_port);
    let log = socat_log_file(container_id, container_port);
    let mut s = String::from_str("nohup /usr/bin/socat TCP-LISTEN:");
    numeral::push_decimal(&mut s, host_port as u64);
    s.append(",fork,reuseaddr TCP:");
    s.append(container_ip);
    s.append(":");
    numeral::push_decimal(&mut s, container_port as u64);
    s.append(" \\\n  >");
    s.append(log.as_str());
    s.append(" 2>&1 &\nSOCAT_PID=$!\necho $SOCAT_PID > ");
    s.append(pid.as_str());
    s.append(
        "\n# Give socat a moment to fail-fast on exec / bind errors.\nsleep 0.1\nif ! kill -0 $SOCAT_PID 2>/dev/null; then\necho \"poststart: socat $SOCAT_PID exited (port ",
    );
    numeral::push_decimal(&mut s, host_port as u64);
    s.append(")\" >&2\ncat ");
    s.append(log.as_str());
    s.append(" >&2 2>/dev/null || true\nrm -f ");
    s.append(pid.as_str());
    s.append("\nexit 1\nfi\n");
    s
}

/// One `socat` per binding. Inputs are `(container_port, host_port)`, the
/// reverse of the `(host_port, container_port)` shape used elsewhere. After
/// backgrounding, the script verifies that the pid is still alive: if socat
/// failed to exec, the pid file would otherwise reference a dead process.
pub fn poststart_hook_script(
    container_id: &str,
    container_ip: &str,
    ports: &[(u16, u16)],
) -> (script: String)
    ensures
        script@ == poststart(container_id@, container_ip@, ports@),
{
    let mut script = String::from_str("\n");
    let n: usize = ports.len();
    assert(ports@.take(0) =~= Seq::<(u16, u16)>::empty());
    for i in 0..n
        invariant
            n == ports@.len(),
            script@ == poststart(container_id@, container_ip@, ports@.take(i as int)),
    {
        assert(ports@.take(i + 1).drop_last() =~= ports@.take(i as int));
        let (container_port, host_port) = ports[i];
        script.append(
            poststart_piece(container_id, container_ip, container_port, host_port).as_str(),
        );
    }
    assert(ports@.take(n as int) =~= ports@);
    script
}

/// The part of the poststop script for one binding.
pub open spec fn poststop_block(id: Seq<char>, port: (u16, u16)) -> Seq<char> {
    "SOCAT_PID=$(cat "@ + pid_file(id, port.0 as nat)
        + " 2>/dev/null || echo)\nif [ -n \"$SOCAT_PID\" ]; then\nkill $SOCAT_PID 2>/dev/null || true\nfor i in 1 2 3 4 5; do\nkill -0 $SOCAT_PID 2>/dev/null || break\nsleep 0.1\ndone\nkill -9 $SOCAT_PID 2>/dev/null || true\nfi\nrm -f "@
        + pid_file(id, port.0 as nat) + " "@ + log_file(id, port.0 as nat) + "\n"@
}

/// The blocks of the poststop script.
pub open spec fn poststop_blocks(id: Seq<char>, ports: Seq<(u16, u16)>) -> Seq<char>
    decreases ports.len(),
{
    if ports.len() == 0 {
        "\n"@
    } else {
        poststop_blocks(id, ports.drop_last()) + poststop_block(id, ports.last())
    }
}

/// The poststop script: one block per binding, and the veth last.
pub open spec fn poststop(id: Seq<char>, ports: Seq<(u16, u16)>) -> Seq<char> {
    poststop_blocks(id, ports) + "ip link delete \""@ + veth(id) + "\" 2>/dev/null || true\n"@
}

fn poststop_piece(container_id: &str, container_port: u16, host_port: u16) -> (piece: String)
    ensures
        piece@ == poststop_block(container_id@, (container_port, host_port)),
{
    let pid = socat_pid_file(container_id, container_port);
    let log = socat_log_file(container_id, container_port);
    let mut s = String::from_str("SOCAT_PID=$(cat ");
    s.append(pid.as_str());
    s.append(
        " 2>/dev/null || echo)\nif [ -n \"$SOCAT_PID\" ]; then\nkill $SOCAT_PID 2>/dev/null || true\nfor i in 1 2 3 4 5; do\nkill -0 $SOCAT_PID 2>/dev/null || break\nsleep 0.1\ndone\nkill -9 $SOCAT_PID 2>/dev/null || true\nfi\nrm -f ",
    );
    s.append(pid.as_str());
    s.append(" ");
    s.append(log.as_str());
    s.append("\n");
    s
}

/// Kill the socats we started (by pid only: scoping by host port would also
/// kill an unrelated container's forwarder that picked the same port after our
/// pid file was lost), remove pid and log files, then drop the veth. SIGTERM,
/// brief grace, SIGKILL: socat blocked mid-transfer doesn't always respond to
/// SIGTERM.
pub fn poststop_hook_script(container_id: &str, ports: &[(u16, u16)]) -> (script: String)
    ensures
        script@ == poststop(container_id@, ports@),
{
    let mut script = String::from_str("\n");
    let n: usize = ports.len();
    assert(ports@.take(0) =~= Seq::<(u16, u16)>::empty());
    for i in 0..n
        invariant
            n == ports@.len(),
            script@ == poststop_blocks(container_id@, ports@.take(i as int)),
    {
        assert(ports@.take(i + 1).drop_last() =~= ports@.take(i as int));
        let (container_port, host_port) = ports[i];
        script.append(poststop_piece(container_id, container_port, host_port).as_str());
    }
    assert(ports@.take(n as int) =~= ports@);
    script.append("ip link delete \"");
    script.append(veth_name(container_id).as_str());
    script.append("\" 2>/dev/null || true\n");
    script
}

/// The poststart script starts a forwarder for every binding, in order, that
/// listens on the host port and dials the container port at the container's
/// address; the poststop script reads each pid file again and, after all of
/// that, drops the veth.
pub proof fn law_hook_blocks(
    id: Seq<char>,
    ip: Seq<char>,
    ports: Seq<(u16, u16)>,
    port: (u16, u16),
)
    ensures
        poststart(id, ip, Seq::empty()) == "\n"@,
        poststart(id, ip, ports.push(port)) == poststart(id, ip, ports) + poststart_block(
            id,
            ip,
            port,
        ),
        ("nohup /usr/bin/socat TCP-LISTEN:"@ + numeral::decimal(port.1 as nat)
            + ",fork,reuseaddr TCP:"@ + ip + ":"@ + numeral::decimal(
            port.0 as nat,
        )).is_prefix_of(poststart_block(id, ip, port)),
        poststop_blocks(id, Seq::empty()) == "\n"@,
        poststop_blocks(id, ports.push(port)) == poststop_blocks(id, ports) + poststop_block(
            id,
            port,
        ),
        ("SOCAT_PID=$(cat "@ + pid_file(id, port.0 as nat)).is_prefix_of(
            poststop_block(id, port),
        ),
        poststop(id, ports) == poststop_blocks(id, ports) + "ip link delete \""@ + veth(id)
            + "\" 2>/dev/null || true\n"@,
{
    assert(ports.push(port).drop_last() =~= ports);
    let start = "nohup /usr/bin/socat TCP-LISTEN:"@ + numeral::decimal(port.1 as nat)
        + ",fork,reuseaddr TCP:"@ + ip + ":"@ + numeral::decimal(port.0 as nat);
    assert(start =~= poststart_block(id, ip, port).subrange(0, start.len() as int));
    let stop = "SOCAT_PID=$(cat "@ + pid_file(id, port.0 as nat);
    assert(stop =~= poststop_block(id, port).subrange(0, stop.len() as int));
}

/// A port's pid file and log file differ in their ending alone.
pub proof fn law_pid_and_log_file(id: Seq<char>, port: nat)
    ensures
        pid_file(id, port) == "/tmp/socat-"@ + id + "-"@ + numeral::decimal(port) + ".pid"@,
        log_file(id, port) == "/tmp/socat-"@ + id + "-"@ + numeral::decimal(port) + ".log"@,
{
}

/// No two ports share a pid file, be they of one container or of two: a socat
/// never clobbers the file of another.
pub proof fn law_pid_files_are_distinct(id1: Seq<char>, p1: nat, id2: Seq<char>, p2: nat)
    requires
        pid_file(id1, p1) == pid_file(id2, p2),
    ensures
        id1 == id2,
        p1 == p2,
{
    reveal_strlit("/tmp/socat-");
    reveal_strlit("-");
    reveal_strlit(".pid");
    let s = pid_file(id1, p1);
    let d1 = numeral::decimal(p1);
    let d2 = numeral::decimal(p2);
    numeral::lemma_decimal(p1);
    numeral::lemma_decimal(p2);
    let end = s.len() - 4;
    assert(s.subrange(end - d1.len(), end) =~= d1);
    assert(s.subrange(end - d2.len(), end) =~= d2);
    assert(s[end - d1.len() - 1] == '-');
    assert(s[end - d2.len() - 1] == '-');
    if d1.len() < d2.len() {
        assert(d2[d2.len() - d1.len() - 1] == s[end - d1.len() - 1]);
    } else if d2.len() < d1.len() {
        assert(d1[d1.len() - d2.len() - 1] == s[end - d2.len() - 1]);
    }
    assert(s.subrange(11, end - d1.len() - 1) =~= id1);
    assert(s.subrange(11, end - d2.len() - 1) =~= id2);
    numeral::lemma_digits(p1);
    numeral::lemma_digits(p2);
}

} // verus!
