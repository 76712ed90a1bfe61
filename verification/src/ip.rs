//! Address model and IPv6 candidate selection.
//!
//! An IPv6 address is modelled as its 64-bit network prefix (`hi`) and
//! 64-bit interface identifier (`lo`); an IPv4 address as its 32 bits.
//! The selector takes the outgoing address, the host's locally bound
//! addresses (annotated with global routability) and the configured policy,
//! and picks the address that should be published.

use vstd::prelude::*;

verus! {

/// An IPv4 address, as its 32 bits in network order.
#[derive(PartialEq, Eq, Structural, Clone, Copy, Debug, Hash)]
pub struct Ipv4Address {
    pub bits: u32,
}

/// An IPv6 address: `hi` holds the first eight octets (the 64-bit network
/// prefix), `lo` the last eight (the interface identifier), each in network
/// order.
#[derive(PartialEq, Eq, Structural, Clone, Copy, Debug, Hash)]
pub struct Ipv6Address {
    pub hi: u64,
    pub lo: u64,
}

/// A resolved public address of either family.
#[derive(PartialEq, Eq, Structural, Clone, Copy, Debug)]
pub enum IpAddress {
    V4(Ipv4Address),
    V6(Ipv6Address),
}

/// An IPv6 address bound to a local network interface, annotated with
/// whether it is globally routable. Gathered fresh each run.
#[derive(PartialEq, Eq, Structural, Clone, Copy, Debug)]
pub struct InterfaceAddress {
    pub address: Ipv6Address,
    pub global: bool,
}

/// The configured IPv6 selection policy: two independent preferences.
#[derive(PartialEq, Eq, Structural, Clone, Copy, Debug)]
pub struct Ipv6Policy {
    pub prefer_eui64: bool,
    pub prefer_outgoing: bool,
}

/// The big-endian value of an eight-byte sequence.
pub open spec fn be64(b: Seq<u8>) -> int
    recommends
        b.len() == 8,
{
    b[0] * 0x100_0000_0000_0000 + b[1] * 0x1_0000_0000_0000 + b[2] * 0x100_0000_0000 + b[3]
        * 0x1_0000_0000 + b[4] * 0x100_0000 + b[5] * 0x1_0000 + b[6] * 0x100 + b[7]
}

/// The big-endian value of eight octets, as a machine word.
pub fn be64_value(b: &[u8; 8]) -> (r: u64)
    ensures
        r == be64(b@),
{
    (b[0] as u64) * 0x100_0000_0000_0000 + (b[1] as u64) * 0x1_0000_0000_0000 + (b[2] as u64)
        * 0x100_0000_0000 + (b[3] as u64) * 0x1_0000_0000 + (b[4] as u64) * 0x100_0000 + (b[5]
        as u64) * 0x1_0000 + (b[6] as u64) * 0x100 + (b[7] as u64)
}

impl Ipv4Address {
    /// The address `a.b.c.d`.
    pub fn from_octets(a: u8, b: u8, c: u8, d: u8) -> (r: Ipv4Address)
        ensures
            r.bits == a * 0x100_0000 + b * 0x1_0000 + c * 0x100 + d,
    {
        Ipv4Address {
            bits: (a as u32) * 0x100_0000 + (b as u32) * 0x1_0000 + (c as u32) * 0x100 + (d as u32),
        }
    }
}

impl Ipv6Address {
    /// The address with the given sixteen octets, in network order.
    pub fn from_octets(o: &[u8; 16]) -> (r: Ipv6Address)
        ensures
            r.hi == be64(o@.take(8)),
            r.lo == be64(o@.skip(8)),
    {
        let hi = be64_value(&[o[0], o[1], o[2], o[3], o[4], o[5], o[6], o[7]]);
        let lo = be64_value(&[o[8], o[9], o[10], o[11], o[12], o[13], o[14], o[15]]);
        proof {
            assert(o@.take(8) =~= seq![o@[0], o@[1], o@[2], o@[3], o@[4], o@[5], o@[6], o@[7]]);
            assert(o@.skip(8) =~= seq![
                o@[8],
                o@[9],
                o@[10],
                o@[11],
                o@[12],
                o@[13],
                o@[14],
                o@[15],
            ]);
        }
        Ipv6Address { hi, lo }
    }

    /// The 64-bit network prefix: the first eight octets.
    pub fn prefix(&self) -> (r: u64)
        ensures
            r == self.hi,
    {
        self.hi
    }

    /// The 64-bit interface identifier: the last eight octets.
    pub fn suffix(&self) -> (r: u64)
        ensures
            r == self.lo,
    {
        self.lo
    }
}

/// The first 16-bit segment of the address (bits 0..16 of the prefix).
pub open spec fn seg0(a: Ipv6Address) -> u64 {
    a.hi >> 48
}

/// The second 16-bit segment of the address.
pub open spec fn seg1(a: Ipv6Address) -> u64 {
    (a.hi >> 32) & 0xffff
}

/// The third 16-bit segment of the address.
pub open spec fn seg2(a: Ipv6Address) -> u64 {
    (a.hi >> 16) & 0xffff
}

/// Documentation ranges: `2001:db8::/32` and `3fff::/20`.
pub open spec fn spec_documentation_v6(a: Ipv6Address) -> bool {
    (seg0(a) == 0x2001 && seg1(a) == 0xdb8) || (seg0(a) == 0x3fff && seg1(a) < 0x1000)
}

/// Unique-local range: `fc00::/7`.
pub open spec fn spec_unique_local_v6(a: Ipv6Address) -> bool {
    seg0(a) & 0xfe00 == 0xfc00
}

/// Unicast link-local range: `fe80::/10`.
pub open spec fn spec_link_local_v6(a: Ipv6Address) -> bool {
    seg0(a) & 0xffc0 == 0xfe80
}

/// Exceptions inside the IETF protocol-assignments block `2001::/23` that
/// are globally reachable: the port-control and NAT-traversal anycast
/// addresses `2001:1::1` and `2001:1::2`, AMT `2001:3::/32`, AS112-v6
/// `2001:4:112::/48`, and `2001:20::/28` through `2001:30::/28`.
pub open spec fn spec_protocol_assignment_exception(a: Ipv6Address) -> bool {
    (a.hi == 0x2001_0001_0000_0000 && (a.lo == 1 || a.lo == 2)) || (seg0(a) == 0x2001 && (seg1(a)
        == 3 || (seg1(a) == 4 && seg2(a) == 0x112) || (0x20 <= seg1(a) <= 0x3f)))
}

/// Whether the address is globally routable. Excluded are the unspecified
/// and loopback addresses, IPv4-mapped addresses (`::ffff:0:0/96`),
/// IPv4-IPv6 translation (`64:ff9b:1::/48`), the discard-only block
/// (`100::/64`), IETF protocol assignments (`2001::/23`, save the reachable
/// exceptions), 6to4 (`2002::/16`), SRv6 SIDs (`5f00::/16`), documentation,
/// unique-local and link-local ranges, per the IANA special-purpose address
/// registry.
pub open spec fn spec_global_v6(a: Ipv6Address) -> bool {
    !((a.hi == 0 && a.lo == 0) || (a.hi == 0 && a.lo == 1) || (a.hi == 0 && (a.lo >> 32) == 0xffff)
        || (seg0(a) == 0x64 && seg1(a) == 0xff9b && seg2(a) == 1) || a.hi == 0x0100_0000_0000_0000
        || (seg0(a) == 0x2001 && seg1(a) < 0x200 && !spec_protocol_assignment_exception(a)) || seg0(
        a,
    ) == 0x2002 || seg0(a) == 0x5f00 || spec_documentation_v6(a) || spec_unique_local_v6(a)
        || spec_link_local_v6(a))
}

impl Ipv6Address {
    /// Whether the address is globally routable; see [`spec_global_v6`].
    pub fn is_global(&self) -> (r: bool)
        ensures
            r == spec_global_v6(*self),
    {
        let s0 = self.hi >> 48;
        let s1 = (self.hi >> 32) & 0xffff;
        let s2 = (self.hi >> 16) & 0xffff;
        let exception = (self.hi == 0x2001_0001_0000_0000 && (self.lo == 1 || self.lo == 2)) || (s0
            == 0x2001 && (s1 == 3 || (s1 == 4 && s2 == 0x112) || (0x20 <= s1 && s1 <= 0x3f)));
        !((self.hi == 0 && self.lo == 0) || (self.hi == 0 && self.lo == 1) || (self.hi == 0
            && (self.lo >> 32) == 0xffff) || (s0 == 0x64 && s1 == 0xff9b && s2 == 1) || self.hi
            == 0x0100_0000_0000_0000 || (s0 == 0x2001 && s1 < 0x200 && !exception) || s0 == 0x2002
            || s0 == 0x5f00 || ((s0 == 0x2001 && s1 == 0xdb8) || (s0 == 0x3fff && s1 < 0x1000))
            || s0 & 0xfe00 == 0xfc00 || s0 & 0xffc0 == 0xfe80)
    }
}

impl InterfaceAddress {
    /// Annotates a locally bound address with its global routability.
    pub fn classify(address: Ipv6Address) -> (r: InterfaceAddress)
        ensures
            r.address == address,
            r.global == spec_global_v6(address),
    {
        InterfaceAddress { address, global: address.is_global() }
    }
}

/// The modified EUI-64 interface identifier derived from a 48-bit MAC
/// address: the fixed octets `0xff 0xfe` are inserted between the OUI and
/// the device half, and the universal/local bit (bit 1 of the first octet)
/// is flipped.
pub open spec fn modified_eui64(m: Seq<u8>) -> Seq<u8>
    recommends
        m.len() == 6,
{
    seq![m[0] ^ 0x02, m[1], m[2], 0xffu8, 0xfeu8, m[3], m[4], m[5]]
}

/// Derives the modified EUI-64 interface identifier from a MAC address.
pub fn eui48_to_modified_eui64(eui48: &[u8; 6]) -> (r: Option<[u8; 8]>)
    ensures
        r is Some,
        r matches Some(e) ==> e@ == modified_eui64(eui48@),
{
    let e = [eui48[0] ^ 0x02, eui48[1], eui48[2], 0xff, 0xfe, eui48[3], eui48[4], eui48[5]];
    proof {
        assert(e@ =~= modified_eui64(eui48@));
    }
    Some(e)
}

/// A locally bound address is a candidate for publication when it is
/// globally routable and shares the outgoing address's 64-bit prefix.
pub open spec fn is_candidate(ia: InterfaceAddress, outgoing: Ipv6Address) -> bool {
    ia.global && ia.address.hi == outgoing.hi
}

/// The candidate addresses among the locally bound ones, in enumeration
/// order.
pub open spec fn candidates_of(locals: Seq<InterfaceAddress>, outgoing: Ipv6Address) -> Seq<
    Ipv6Address,
>
    decreases locals.len(),
{
    if locals.len() == 0 {
        Seq::empty()
    } else {
        let rest = candidates_of(locals.drop_last(), outgoing);
        if is_candidate(locals.last(), outgoing) {
            rest.push(locals.last().address)
        } else {
            rest
        }
    }
}

proof fn lemma_candidates_push(locals: Seq<InterfaceAddress>, ia: InterfaceAddress, outgoing: Ipv6Address)
    ensures
        candidates_of(locals.push(ia), outgoing) == if is_candidate(ia, outgoing) {
            candidates_of(locals, outgoing).push(ia.address)
        } else {
            candidates_of(locals, outgoing)
        },
{
    assert(locals.push(ia).drop_last() =~= locals);
}

/// The first candidate whose interface identifier equals `suffix`.
pub open spec fn first_with_suffix(cands: Seq<Ipv6Address>, suffix: u64) -> Option<Ipv6Address>
    decreases cands.len(),
{
    if cands.len() == 0 {
        None
    } else if cands.first().lo == suffix {
        Some(cands.first())
    } else {
        first_with_suffix(cands.drop_first(), suffix)
    }
}

/// The first candidate that is not the outgoing address.
pub open spec fn first_other_than(cands: Seq<Ipv6Address>, outgoing: Ipv6Address) -> Option<
    Ipv6Address,
>
    decreases cands.len(),
{
    if cands.len() == 0 {
        None
    } else if cands.first() != outgoing {
        Some(cands.first())
    } else {
        first_other_than(cands.drop_first(), outgoing)
    }
}

/// The view of an optional MAC address handed to the selector.
pub open spec fn mac_view(mac: Option<&[u8; 6]>) -> Option<Seq<u8>> {
    match mac {
        Some(m) => Some(m@),
        None => None,
    }
}

/// What the selector returns: no candidate on the outgoing prefix means
/// resolution failed; a single candidate is taken as is; with a choice, an
/// address whose identifier is the MAC-derived modified EUI-64 wins when
/// `prefer_eui64` is set, then the outgoing address itself when
/// `prefer_outgoing` is set, and otherwise the first candidate that differs
/// from the outgoing address.
pub open spec fn select_spec(
    outgoing: Ipv6Address,
    locals: Seq<InterfaceAddress>,
    policy: Ipv6Policy,
    mac: Option<Seq<u8>>,
) -> Option<Ipv6Address> {
    let cands = candidates_of(locals, outgoing);
    if cands.len() == 0 {
        None
    } else if cands.len() == 1 {
        Some(cands[0])
    } else {
        let eui_pick = if policy.prefer_eui64 {
            match mac {
                Some(m) => first_with_suffix(cands, be64(modified_eui64(m)) as u64),
                None => None,
            }
        } else {
            None
        };
        if eui_pick is Some {
            eui_pick
        } else if policy.prefer_outgoing {
            Some(outgoing)
        } else {
            first_other_than(cands, outgoing)
        }
    }
}

/// Picks the IPv6 address to publish; see [`select_spec`].
#[verifier::loop_isolation(false)]
pub fn select(
    outgoing: Ipv6Address,
    locals: &Vec<InterfaceAddress>,
    policy: Ipv6Policy,
    mac: Option<&[u8; 6]>,
) -> (r: Option<Ipv6Address>)
    ensures
        r == select_spec(outgoing, locals@, policy, mac_view(mac)),
{
    let mut cands: Vec<Ipv6Address> = Vec::new();
    let mut i: usize = 0;
    while i < locals.len()
        invariant
            i <= locals@.len(),
            cands@ == candidates_of(locals@.take(i as int), outgoing),
        decreases locals@.len() - i,
    {
        let ia = locals[i];
        proof {
            lemma_candidates_push(locals@.take(i as int), locals@[i as int], outgoing);
            assert(locals@.take(i + 1) =~= locals@.take(i as int).push(locals@[i as int]));
        }
        if ia.global && ia.address.hi == outgoing.hi {
            cands.push(ia.address);
        }
        i = i + 1;
    }
    proof {
        assert(locals@.take(locals@.len() as int) =~= locals@);
    }
    if cands.len() == 0 {
        return None;
    }
    if cands.len() == 1 {
        return Some(cands[0]);
    }
    if policy.prefer_eui64 {
        if let Some(m) = mac {
            let e = eui48_to_modified_eui64(m).unwrap();
            let suffix = be64_value(&e);
            proof {
                assert(cands@.skip(0) =~= cands@);
            }
            let mut j: usize = 0;
            while j < cands.len()
                invariant
                    j <= cands@.len(),
                    first_with_suffix(cands@, suffix) == first_with_suffix(
                        cands@.skip(j as int),
                        suffix,
                    ),
                decreases cands@.len() - j,
            {
                proof {
                    assert(cands@.skip(j as int).first() == cands@[j as int]);
                    assert(cands@.skip(j as int).drop_first() =~= cands@.skip(j as int + 1));
                }
                if cands[j].lo == suffix {
                    return Some(cands[j]);
                }
                j = j + 1;
            }
            proof {
                assert(cands@.skip(cands@.len() as int) =~= Seq::<Ipv6Address>::empty());
            }
        }
    }
    if policy.prefer_outgoing {
        return Some(outgoing);
    }
    proof {
        assert(cands@.skip(0) =~= cands@);
    }
    let mut j: usize = 0;
    while j < cands.len()
        invariant
            j <= cands@.len(),
            first_other_than(cands@, outgoing) == first_other_than(cands@.skip(j as int), outgoing),
        decreases cands@.len() - j,
    {
        proof {
            assert(cands@.skip(j as int).first() == cands@[j as int]);
            assert(cands@.skip(j as int).drop_first() =~= cands@.skip(j as int + 1));
        }
        if !(cands[j].hi == outgoing.hi && cands[j].lo == outgoing.lo) {
            return Some(cands[j]);
        }
        j = j + 1;
    }
    proof {
        assert(cands@.skip(cands@.len() as int) =~= Seq::<Ipv6Address>::empty());
    }
    None
}

/// `first_with_suffix` returns a candidate exactly when one carries the
/// suffix, and then the first such candidate.
pub proof fn lemma_first_with_suffix(cands: Seq<Ipv6Address>, suffix: u64)
    ensures
        (first_with_suffix(cands, suffix) is Some) <==> (exists|i: int|
            0 <= i < cands.len() && cands[i].lo == suffix),
        first_with_suffix(cands, suffix) matches Some(c) ==> exists|i: int|
            0 <= i < cands.len() && cands[i] == c && c.lo == suffix && (forall|j: int|
                0 <= j < i ==> cands[j].lo != suffix),
    decreases cands.len(),
{
    if cands.len() == 0 {
    } else if cands.first().lo == suffix {
        assert(cands[0].lo == suffix);
    } else {
        let rest = cands.drop_first();
        lemma_first_with_suffix(rest, suffix);
        assert(forall|i: int| 0 <= i < rest.len() ==> rest[i] == cands[i + 1]);
        if exists|i: int| 0 <= i < cands.len() && cands[i].lo == suffix {
            let i = choose|i: int| 0 <= i < cands.len() && cands[i].lo == suffix;
            assert(rest[i - 1].lo == suffix);
        }
        if first_with_suffix(cands, suffix) is Some {
            let c = first_with_suffix(cands, suffix)->Some_0;
            let i = choose|i: int|
                0 <= i < rest.len() && rest[i] == c && c.lo == suffix && (forall|j: int|
                    0 <= j < i ==> rest[j].lo != suffix);
            assert(cands[i + 1] == c);
            assert(forall|j: int| 1 <= j < i + 1 ==> cands[j] == rest[j - 1]);
            assert(forall|j: int| 0 <= j < i + 1 ==> cands[j].lo != suffix);
        }
    }
}

/// `first_other_than` returns a candidate exactly when one differs from the
/// outgoing address, and then the first such candidate.
pub proof fn lemma_first_other_than(cands: Seq<Ipv6Address>, outgoing: Ipv6Address)
    ensures
        (first_other_than(cands, outgoing) is None) <==> (forall|i: int|
            0 <= i < cands.len() ==> cands[i] == outgoing),
        first_other_than(cands, outgoing) matches Some(c) ==> exists|i: int|
            0 <= i < cands.len() && cands[i] == c && c != outgoing && (forall|j: int|
                0 <= j < i ==> cands[j] == outgoing),
    decreases cands.len(),
{
    if cands.len() == 0 {
    } else if cands.first() != outgoing {
        assert(cands[0] != outgoing);
    } else {
        let rest = cands.drop_first();
        lemma_first_other_than(rest, outgoing);
        assert(forall|i: int| 0 <= i < rest.len() ==> rest[i] == cands[i + 1]);
        if first_other_than(cands, outgoing) is None {
            assert forall|i: int| 0 <= i < cands.len() implies cands[i] == outgoing by {
                if i > 0 {
                    assert(rest[i - 1] == outgoing);
                }
            }
        } else {
            let c = first_other_than(cands, outgoing)->Some_0;
            let i = choose|i: int|
                0 <= i < rest.len() && rest[i] == c && c != outgoing && (forall|j: int|
                    0 <= j < i ==> rest[j] == outgoing);
            assert(cands[i + 1] == c);
            assert(forall|j: int| 1 <= j < i + 1 ==> cands[j] == rest[j - 1]);
            assert(forall|j: int| 0 <= j < i + 1 ==> cands[j] == outgoing);
        }
    }
}

/// With a single candidate on the matching prefix, the selector returns it,
/// whatever the policy flags and whatever MAC address was read.
pub proof fn lemma_select_single_candidate(
    outgoing: Ipv6Address,
    locals: Seq<InterfaceAddress>,
    policy: Ipv6Policy,
    mac: Option<Seq<u8>>,
)
    requires
        candidates_of(locals, outgoing).len() == 1,
    ensures
        select_spec(outgoing, locals, policy, mac) == Some(candidates_of(locals, outgoing)[0]),
{
}

/// With a choice of candidates, `prefer_eui64` wins over `prefer_outgoing`:
/// when some candidate's interface identifier equals the modified EUI-64
/// derived from the MAC address, the selector returns the first such
/// candidate, whatever `prefer_outgoing` says.
pub proof fn lemma_select_eui64_priority(
    outgoing: Ipv6Address,
    locals: Seq<InterfaceAddress>,
    policy: Ipv6Policy,
    m: Seq<u8>,
)
    requires
        policy.prefer_eui64,
        candidates_of(locals, outgoing).len() >= 2,
        exists|i: int|
            0 <= i < candidates_of(locals, outgoing).len() && candidates_of(locals, outgoing)[i].lo
                == be64(modified_eui64(m)) as u64,
    ensures
        select_spec(outgoing, locals, policy, Some(m)) == first_with_suffix(
            candidates_of(locals, outgoing),
            be64(modified_eui64(m)) as u64,
        ),
        select_spec(outgoing, locals, policy, Some(m)) matches Some(c) && c.lo == be64(
            modified_eui64(m),
        ) as u64,
{
    lemma_first_with_suffix(candidates_of(locals, outgoing), be64(modified_eui64(m)) as u64);
}

/// With a choice of candidates, `prefer_eui64` unset and `prefer_outgoing`
/// set, the selector returns the outgoing address itself.
pub proof fn lemma_select_outgoing_preference(
    outgoing: Ipv6Address,
    locals: Seq<InterfaceAddress>,
    policy: Ipv6Policy,
    mac: Option<Seq<u8>>,
)
    requires
        !policy.prefer_eui64,
        policy.prefer_outgoing,
        candidates_of(locals, outgoing).len() >= 2,
    ensures
        select_spec(outgoing, locals, policy, mac) == Some(outgoing),
{
}

/// With a choice of candidates and both preferences unset, the selector
/// returns the first candidate that differs from the outgoing address, and
/// nothing when every candidate equals it.
pub proof fn lemma_select_fallback(
    outgoing: Ipv6Address,
    locals: Seq<InterfaceAddress>,
    policy: Ipv6Policy,
    mac: Option<Seq<u8>>,
)
    requires
        !policy.prefer_eui64,
        !policy.prefer_outgoing,
        candidates_of(locals, outgoing).len() >= 2,
    ensures
        (forall|i: int|
            0 <= i < candidates_of(locals, outgoing).len() ==> candidates_of(locals, outgoing)[i]
                == outgoing) ==> select_spec(outgoing, locals, policy, mac) is None,
        (exists|i: int|
            0 <= i < candidates_of(locals, outgoing).len() && candidates_of(locals, outgoing)[i]
                != outgoing) ==> (select_spec(outgoing, locals, policy, mac) matches Some(c)
            && c != outgoing && (exists|i: int|
            0 <= i < candidates_of(locals, outgoing).len() && candidates_of(locals, outgoing)[i]
                == c && (forall|j: int|
                0 <= j < i ==> candidates_of(locals, outgoing)[j] == outgoing))),
{
    lemma_first_other_than(candidates_of(locals, outgoing), outgoing);
}

/// The index of the first occurrence of `c` in `s`, or `s.len()` when `c`
/// does not occur.
pub open spec fn index_of_char(s: Seq<char>, c: char) -> int
    decreases s.len(),
{
    if s.len() == 0 {
        0
    } else if s.first() == c {
        0
    } else {
        1 + index_of_char(s.drop_first(), c)
    }
}

pub proof fn lemma_index_of_char_props(s: Seq<char>, c: char)
    ensures
        0 <= index_of_char(s, c) <= s.len(),
        index_of_char(s, c) < s.len() ==> s[index_of_char(s, c)] == c,
        forall|j: int| 0 <= j < index_of_char(s, c) ==> s[j] != c,
    decreases s.len(),
{
    if s.len() == 0 {
    } else if s.first() == c {
    } else {
        lemma_index_of_char_props(s.drop_first(), c);
        assert forall|j: int| 0 <= j < index_of_char(s, c) implies s[j] != c by {
            if j > 0 {
                assert(s.drop_first()[j - 1] != c);
            }
        }
    }
}

/// What one `key=value` line of an address-echo body yields: the value part
/// when the key (the text before the first `=`) is exactly `ip`.
pub open spec fn line_ip_value(line: Seq<char>) -> Option<Seq<char>> {
    let p = index_of_char(line, '=');
    if p < line.len() && line.take(p) == seq!['i', 'p'] {
        Some(line.skip(p + 1))
    } else {
        None
    }
}

/// A line split off at a newline sheds one trailing carriage return, so
/// that bodies with CRLF line endings read the same as LF ones.
pub open spec fn strip_cr(line: Seq<char>) -> Seq<char> {
    if line.len() > 0 && line.last() == '\r' {
        line.drop_last()
    } else {
        line
    }
}

/// The `ip` value of a newline-delimited `key=value` body: the value of the
/// last line whose key is `ip`, or nothing when no line carries that key.
/// Lines end at `\n` or `\r\n`; the text after the last newline is the
/// final line.
pub open spec fn trace_ip_value(s: Seq<char>) -> Option<Seq<char>>
    decreases s.len(),
{
    let p = index_of_char(s, '\n');
    if 0 <= p < s.len() {
        let rest = trace_ip_value(s.skip(p + 1));
        if rest is Some {
            rest
        } else {
            line_ip_value(strip_cr(s.take(p)))
        }
    } else {
        line_ip_value(s)
    }
}

spec fn later_or(earlier: Option<Seq<char>>, later: Option<Seq<char>>) -> Option<Seq<char>> {
    if later is Some {
        later
    } else {
        earlier
    }
}

spec fn opt_string_view(r: Option<String>) -> Option<Seq<char>> {
    match r {
        Some(v) => Some(v@),
        None => None,
    }
}

/// The position of the first occurrence of `c` in `s` between `from` and
/// `to`, or `to` when there is none.
#[verifier::loop_isolation(false)]
fn scan_for(s: &str, from: usize, to: usize, c: char) -> (r: usize)
    requires
        from <= to <= s@.len(),
    ensures
        from <= r <= to,
        r - from == index_of_char(s@.subrange(from as int, to as int), c),
{
    let ghost sub = s@.subrange(from as int, to as int);
    proof {
        lemma_index_of_char_props(sub, c);
    }
    let mut k = from;
    while k < to
        invariant
            from <= k <= to,
            forall|j: int| from <= j < k ==> s@[j] != c,
        decreases to - k,
    {
        if s.get_char(k) == c {
            proof {
                assert(sub[k - from] == c);
                assert(forall|j: int| 0 <= j < k - from ==> sub[j] != c);
            }
            return k;
        }
        k = k + 1;
    }
    proof {
        assert(forall|j: int| 0 <= j < sub.len() ==> sub[j] != c);
    }
    to
}

/// Extracts the `ip` field from a newline-delimited `key=value` body, as an
/// address-echo service returns it; see [`trace_ip_value`].
#[verifier::loop_isolation(false)]
pub fn extract_ip(body: &str) -> (r: Option<String>)
    requires
        body@.len() < usize::MAX,
    ensures
        r matches Some(v) ==> trace_ip_value(body@) == Some(v@),
        r is None ==> trace_ip_value(body@) is None,
{
    let n = body.unicode_len();
    let mut result: Option<String> = None;
    let mut start: usize = 0;
    proof {
        assert(body@.skip(0) =~= body@);
    }
    while start <= n
        invariant
            start <= n + 1,
            trace_ip_value(body@) == if start <= n {
                later_or(opt_string_view(result), trace_ip_value(body@.skip(start as int)))
            } else {
                opt_string_view(result)
            },
        decreases n + 1 - start,
    {
        let end = scan_for(body, start, n, '\n');
        let line_end = if end < n && end > start && body.get_char(end - 1) == '\r' {
            end - 1
        } else {
            end
        };
        let peq = scan_for(body, start, line_end, '=');
        let ghost line = body@.subrange(start as int, line_end as int);
        let ghost tail = body@.skip(start as int);
        proof {
            assert(tail =~= body@.subrange(start as int, n as int));
            assert(forall|j: int| 0 <= j < tail.len() ==> tail[j] == body@[start + j]);
            assert(index_of_char(tail, '\n') == end - start);
            if end < n {
                assert(line =~= strip_cr(tail.take(end - start)));
            } else {
                assert(line =~= tail.take(end - start));
            }
        }
        if peq < line_end && peq == start + 2 && body.get_char(start) == 'i' && body.get_char(
            start + 1,
        ) == 'p' {
            proof {
                assert(line.take(2) =~= seq!['i', 'p']);
                assert(line.skip(3) =~= body@.subrange(peq + 1, line_end as int));
            }
            let v = body.substring_char(peq + 1, line_end);
            result = Some(v.to_owned());
        } else {
            proof {
                let p = index_of_char(line, '=');
                if p < line.len() && line.take(p) == seq!['i', 'p'] {
                    assert(line.take(p).len() == 2);
                    assert(line.take(p)[0] == line[0] && line.take(p)[1] == line[1]);
                    assert(peq - start == 2 && body@[start as int] == 'i' && body@[start + 1]
                        == 'p');
                    assert(false);
                }
                assert(line_ip_value(line) is None);
            }
        }
        proof {
            if end < n {
                assert(tail.skip(end - start + 1) =~= body@.skip(end + 1));
            } else {
                assert(line =~= tail);
            }
        }
        start = end + 1;
    }
    result
}

/// Relies on `mac_address::get_mac_address`, which looks up the MAC address
/// of the machine's first network device (ignoring loopback); which device
/// that is, and whether one exists, depends on the machine, so nothing is
/// promised of the outcome.
#[verifier::external_body]
fn host_mac_bytes() -> (r: Option<[u8; 6]>) {
    match mac_address::get_mac_address() {
        Ok(Some(m)) => Some(m.bytes()),
        _ => None,
    }
}

/// Picks the IPv6 address to publish, deriving the EUI-64 identifier from
/// the host's own MAC address. The MAC lookup depends on the machine, so
/// the result is pinned only up to whatever that lookup returned; with
/// `prefer_eui64` unset the lookup is skipped and the choice is exact.
pub fn select_with_host_mac(
    outgoing: Ipv6Address,
    locals: &Vec<InterfaceAddress>,
    policy: Ipv6Policy,
) -> (r: Option<Ipv6Address>)
    ensures
        exists|m: Option<Seq<u8>>|
            r == select_spec(outgoing, locals@, policy, m) && (m matches Some(b) ==> b.len() == 6),
        !policy.prefer_eui64 ==> r == select_spec(
            outgoing,
            locals@,
            policy,
            None::<Seq<u8>>,
        ),
{
    let mac = if policy.prefer_eui64 {
        host_mac_bytes()
    } else {
        None
    };
    let r = match &mac {
        Some(m) => select(outgoing, locals, policy, Some(m)),
        None => select(outgoing, locals, policy, None),
    };
    proof {
        let witness = match mac {
            Some(m) => Some(m@),
            None => None::<Seq<u8>>,
        };
        assert(r == select_spec(outgoing, locals@, policy, witness) && (witness matches Some(b)
            ==> b.len() == 6));
    }
    r
}

} // verus!
