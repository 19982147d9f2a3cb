//! IPv4 and IPv6 addresses: masks, prefix lengths, and the ranges of
//! addresses handed to the clients.

use vstd::prelude::*;
use vstd::arithmetic::power2::{pow2, lemma_pow2_unfold, lemma2_to64};

use crate::numtext::{decimal, hex_lower, push_decimal, push_hex};
use crate::text::push_str;

verus! {

/// An IP address: the four octets of an IPv4 address, or the eight 16-bit
/// segments of an IPv6 address, most significant first.
#[derive(Clone, Copy, Debug, PartialEq, Eq)]
pub enum IpAddress {
    V4([u8; 4]),
    V6([u16; 8]),
}

pub enum IpView {
    V4(Seq<u8>),
    V6(Seq<u16>),
}

impl View for IpAddress {
    type V = IpView;

    open spec fn view(&self) -> IpView {
        match self {
            IpAddress::V4(o) => IpView::V4(o@),
            IpAddress::V6(s) => IpView::V6(s@),
        }
    }
}

pub open spec fn addr_views(v: Seq<IpAddress>) -> Seq<IpView> {
    v.map_values(|a: IpAddress| a@)
}

/// The 32-bit number of four octets, as `u32::from(Ipv4Addr)` gives it.
pub open spec fn ipv4_value(o: Seq<u8>) -> u32 {
    ((o[0] as u32) << 24u32) | ((o[1] as u32) << 16u32) | ((o[2] as u32) << 8u32) | (o[3] as u32)
}

/// The four octets of a 32-bit number, as `Ipv4Addr::from(u32)` takes them.
pub open spec fn ipv4_octets(v: u32) -> Seq<u8> {
    seq![(v >> 24u32) as u8, (v >> 16u32) as u8, (v >> 8u32) as u8, v as u8]
}

/// The 128-bit number of segments, each shifted in from the right.
pub open spec fn ipv6_partial_value(s: Seq<u16>) -> u128
    decreases s.len(),
{
    if s.len() == 0 {
        0
    } else {
        (ipv6_partial_value(s.drop_last()) << 16u128) | (s.last() as u128)
    }
}

/// The 128-bit number of eight segments.
pub open spec fn ipv6_value(s: Seq<u16>) -> u128 {
    ipv6_partial_value(s)
}

/// Segment `i` (0 the most significant) of a 128-bit number.
pub open spec fn ipv6_segment(v: u128, i: int) -> u16 {
    ((v >> (((7 - i) * 16) as u128)) & 0xffffu128) as u16
}

/// The eight segments of a 128-bit number.
pub open spec fn ipv6_segments(v: u128) -> Seq<u16> {
    Seq::new(8, |i: int| ipv6_segment(v, i))
}

/// The number of bits set in `x`.
pub open spec fn popcount(x: nat) -> nat
    decreases x,
{
    if x == 0 {
        0
    } else {
        x % 2 + popcount(x / 2)
    }
}

pub open spec fn octet_ones(o: Seq<u8>) -> nat
    decreases o.len(),
{
    if o.len() == 0 {
        0
    } else {
        octet_ones(o.drop_last()) + popcount(o.last() as nat)
    }
}

pub open spec fn segment_ones(s: Seq<u16>) -> nat
    decreases s.len(),
{
    if s.len() == 0 {
        0
    } else {
        segment_ones(s.drop_last()) + popcount(s.last() as nat)
    }
}

/// The prefix length of a mask: the number of bits set in it.
pub open spec fn cidr_of(mask: IpView) -> nat {
    match mask {
        IpView::V4(o) => octet_ones(o),
        IpView::V6(s) => segment_ones(s),
    }
}

pub proof fn lemma_popcount_bound(x: nat, n: nat)
    requires
        x < pow2(n),
    ensures
        popcount(x) <= n,
    decreases n,
{
    lemma2_to64();
    if n > 0 && x > 0 {
        lemma_pow2_unfold(n);
        lemma_popcount_bound(x / 2, (n - 1) as nat);
    }
}

/// The number of bits set in `x`.
pub fn count_ones(x: u16) -> (r: u32)
    ensures
        r == popcount(x as nat),
        r <= 16,
{
    let mut y = x;
    let mut c: u32 = 0;
    proof {
        lemma2_to64();
        lemma_popcount_bound(x as nat, 16);
    }
    while y > 0
        invariant
            c + popcount(y as nat) == popcount(x as nat),
            popcount(x as nat) <= 16,
        decreases y,
    {
        c = c + (y % 2) as u32;
        y = y / 2;
    }
    c
}

/// The prefix length of a mask: the number of its bits that are set.
pub fn mask_to_cidr(mask: IpAddress) -> (r: u32)
    ensures
        r == cidr_of(mask@),
        r <= match mask {
            IpAddress::V4(_) => 32u32,
            IpAddress::V6(_) => 128u32,
        },
{
    match mask {
        IpAddress::V4(o) => {
            let mut total: u32 = 0;
            let mut i: usize = 0;
            assert(o@.take(0) =~= Seq::<u8>::empty());
            while i < 4
                invariant
                    i <= 4,
                    total == octet_ones(o@.take(i as int)),
                    total <= 8 * i,
                decreases 4 - i,
            {
                let c = count_ones(o[i] as u16);
                proof {
                    lemma2_to64();
                    lemma_popcount_bound(o[i as int] as nat, 8);
                    assert(o@.take(i + 1).drop_last() =~= o@.take(i as int));
                }
                total = total + c;
                i += 1;
            }
            assert(o@.take(4) =~= o@);
            total
        },
        IpAddress::V6(s) => {
            let mut total: u32 = 0;
            let mut i: usize = 0;
            assert(s@.take(0) =~= Seq::<u16>::empty());
            while i < 8
                invariant
                    i <= 8,
                    total == segment_ones(s@.take(i as int)),
                    total <= 16 * i,
                decreases 8 - i,
            {
                let c = count_ones(s[i]);
                proof {
                    assert(s@.take(i + 1).drop_last() =~= s@.take(i as int));
                }
                total = total + c;
                i += 1;
            }
            assert(s@.take(8) =~= s@);
            total
        },
    }
}

/// How many addresses a mask spans: 2 to the power of its host bits.
pub fn calculate_number_of_addresses(mask: IpAddress) -> (r: u32)
    requires
        mask is V4,
        cidr_of(mask@) >= 1,
    ensures
        r == pow2((32 - cidr_of(mask@)) as nat),
{
    let bits = mask_to_cidr(mask);
    let e = 32 - bits;
    let mut r: u32 = 1;
    let mut k: u32 = 0;
    proof {
        lemma2_to64();
    }
    while k < e
        invariant
            k <= e <= 31,
            r == pow2(k as nat),
        decreases e - k,
    {
        proof {
            lemma2_to64();
            lemma_pow2_unfold((k + 1) as nat);
            vstd::arithmetic::power2::lemma_pow2_strictly_increases((k + 1) as nat, 32);
        }
        r = r * 2;
        k += 1;
    }
    r
}

/// Eight segments packed into a number, each shifted in from the right.
pub open spec fn pack_segments(
    a: u16,
    b: u16,
    c: u16,
    d: u16,
    e: u16,
    f: u16,
    g: u16,
    h: u16,
) -> u128 {
    (((((((((((((((a as u128) << 16u128) | (b as u128)) << 16u128) | (c as u128)) << 16u128) | (
    d as u128)) << 16u128) | (e as u128)) << 16u128) | (f as u128)) << 16u128) | (g as u128))
        << 16u128) | (h as u128))
}

proof fn lemma_pack_segments(a: u16, b: u16, c: u16, d: u16, e: u16, f: u16, g: u16, h: u16)
    ensures
        ipv6_segment(pack_segments(a, b, c, d, e, f, g, h), 0) == a,
        ipv6_segment(pack_segments(a, b, c, d, e, f, g, h), 1) == b,
        ipv6_segment(pack_segments(a, b, c, d, e, f, g, h), 2) == c,
        ipv6_segment(pack_segments(a, b, c, d, e, f, g, h), 3) == d,
        ipv6_segment(pack_segments(a, b, c, d, e, f, g, h), 4) == e,
        ipv6_segment(pack_segments(a, b, c, d, e, f, g, h), 5) == f,
        ipv6_segment(pack_segments(a, b, c, d, e, f, g, h), 6) == g,
        ipv6_segment(pack_segments(a, b, c, d, e, f, g, h), 7) == h,
{
    let v = pack_segments(a, b, c, d, e, f, g, h);
    assert(((v >> 112u128) & 0xffffu128) as u16 == a) by (bit_vector)
        requires
            v == pack_segments(a, b, c, d, e, f, g, h),
    ;
    assert(((v >> 96u128) & 0xffffu128) as u16 == b) by (bit_vector)
        requires
            v == pack_segments(a, b, c, d, e, f, g, h),
    ;
    assert(((v >> 80u128) & 0xffffu128) as u16 == c) by (bit_vector)
        requires
            v == pack_segments(a, b, c, d, e, f, g, h),
    ;
    assert(((v >> 64u128) & 0xffffu128) as u16 == d) by (bit_vector)
        requires
            v == pack_segments(a, b, c, d, e, f, g, h),
    ;
    assert(((v >> 48u128) & 0xffffu128) as u16 == e) by (bit_vector)
        requires
            v == pack_segments(a, b, c, d, e, f, g, h),
    ;
    assert(((v >> 32u128) & 0xffffu128) as u16 == f) by (bit_vector)
        requires
            v == pack_segments(a, b, c, d, e, f, g, h),
    ;
    assert(((v >> 16u128) & 0xffffu128) as u16 == g) by (bit_vector)
        requires
            v == pack_segments(a, b, c, d, e, f, g, h),
    ;
    assert(((v >> 0u128) & 0xffffu128) as u16 == h) by (bit_vector)
        requires
            v == pack_segments(a, b, c, d, e, f, g, h),
    ;
}

proof fn lemma_unpack_segments(v: u128)
    ensures
        pack_segments(
            ipv6_segment(v, 0),
            ipv6_segment(v, 1),
            ipv6_segment(v, 2),
            ipv6_segment(v, 3),
            ipv6_segment(v, 4),
            ipv6_segment(v, 5),
            ipv6_segment(v, 6),
            ipv6_segment(v, 7),
        ) == v,
{
    let a = ipv6_segment(v, 0);
    let b = ipv6_segment(v, 1);
    let c = ipv6_segment(v, 2);
    let d = ipv6_segment(v, 3);
    let e = ipv6_segment(v, 4);
    let f = ipv6_segment(v, 5);
    let g = ipv6_segment(v, 6);
    let h = ipv6_segment(v, 7);
    assert(pack_segments(a, b, c, d, e, f, g, h) == v) by (bit_vector)
        requires
            a == ((v >> 112u128) & 0xffffu128) as u16,
            b == ((v >> 96u128) & 0xffffu128) as u16,
            c == ((v >> 80u128) & 0xffffu128) as u16,
            d == ((v >> 64u128) & 0xffffu128) as u16,
            e == ((v >> 48u128) & 0xffffu128) as u16,
            f == ((v >> 32u128) & 0xffffu128) as u16,
            g == ((v >> 16u128) & 0xffffu128) as u16,
            h == ((v >> 0u128) & 0xffffu128) as u16,
    ;
}

proof fn lemma_value_is_packed(s: Seq<u16>)
    requires
        s.len() == 8,
    ensures
        ipv6_value(s) == pack_segments(s[0], s[1], s[2], s[3], s[4], s[5], s[6], s[7]),
{
    assert(s.take(0) =~= Seq::<u16>::empty());
    assert(s.take(1).drop_last() =~= s.take(0));
    assert(s.take(1).last() == s[0]);
    assert(ipv6_partial_value(s.take(1)) == (ipv6_partial_value(s.take(0)) << 16u128) | (s[0] as u128));
    assert(s.take(2).drop_last() =~= s.take(1));
    assert(s.take(2).last() == s[1]);
    assert(ipv6_partial_value(s.take(2)) == (ipv6_partial_value(s.take(1)) << 16u128) | (s[1] as u128));
    assert(s.take(3).drop_last() =~= s.take(2));
    assert(s.take(3).last() == s[2]);
    assert(ipv6_partial_value(s.take(3)) == (ipv6_partial_value(s.take(2)) << 16u128) | (s[2] as u128));
    assert(s.take(4).drop_last() =~= s.take(3));
    assert(s.take(4).last() == s[3]);
    assert(ipv6_partial_value(s.take(4)) == (ipv6_partial_value(s.take(3)) << 16u128) | (s[3] as u128));
    assert(s.take(5).drop_last() =~= s.take(4));
    assert(s.take(5).last() == s[4]);
    assert(ipv6_partial_value(s.take(5)) == (ipv6_partial_value(s.take(4)) << 16u128) | (s[4] as u128));
    assert(s.take(6).drop_last() =~= s.take(5));
    assert(s.take(6).last() == s[5]);
    assert(ipv6_partial_value(s.take(6)) == (ipv6_partial_value(s.take(5)) << 16u128) | (s[5] as u128));
    assert(s.take(7).drop_last() =~= s.take(6));
    assert(s.take(7).last() == s[6]);
    assert(ipv6_partial_value(s.take(7)) == (ipv6_partial_value(s.take(6)) << 16u128) | (s[6] as u128));
    assert(s.take(8).drop_last() =~= s.take(7));
    assert(s.take(8).last() == s[7]);
    assert(ipv6_partial_value(s.take(8)) == (ipv6_partial_value(s.take(7)) << 16u128) | (s[7] as u128));
    assert(s.take(8) =~= s);
    let a = s[0];
    assert((0u128 << 16u128) | (a as u128) == a as u128) by (bit_vector);
}

/// Taking the segments of an address's number gives the address back.
pub proof fn lemma_segments_of_value(s: Seq<u16>)
    requires
        s.len() == 8,
    ensures
        ipv6_segments(ipv6_value(s)) == s,
{
    lemma_value_is_packed(s);
    lemma_pack_segments(s[0], s[1], s[2], s[3], s[4], s[5], s[6], s[7]);
    assert(ipv6_segments(ipv6_value(s)) =~= s);
}

/// Taking the number of a value's segments gives the value back.
pub proof fn lemma_value_of_segments(v: u128)
    ensures
        ipv6_value(ipv6_segments(v)) == v,
{
    let s = ipv6_segments(v);
    lemma_value_is_packed(s);
    lemma_unpack_segments(v);
}

/// The address after `ip`: its number plus one, in eight segments. The
/// prefix length only bounds a mask that leaves the number as it is.
pub fn increment_ipv6(ip: [u16; 8], prefix_len: u128) -> (r: [u16; 8])
    requires
        1 <= prefix_len <= 128,
        ipv6_value(ip@) < u128::MAX,
    ensures
        r@ == ipv6_segments((ipv6_value(ip@) + 1) as u128),
{
    let mut ip_int: u128 = 0;
    let mut k: usize = 0;
    assert(ip@.take(0) =~= Seq::<u16>::empty());
    while k < 8
        invariant
            k <= 8,
            ip_int == ipv6_partial_value(ip@.take(k as int)),
        decreases 8 - k,
    {
        assert(ip@.take(k + 1).drop_last() =~= ip@.take(k as int));
        ip_int = (ip_int << 16) | ip[k] as u128;
        k += 1;
    }
    assert(ip@.take(8) =~= ip@);
    ip_int = ip_int + 1;
    let mask: u128 = !0u128 << (128 - prefix_len);
    let before = ip_int;
    ip_int = ip_int & (mask | !mask);
    assert(ip_int == before) by (bit_vector)
        requires
            ip_int == before & (mask | !mask),
    ;
    let ghost v = ip_int;
    let mut segments = ip;
    let mut i: usize = 8;
    assert(ip_int == v >> 0u128) by (bit_vector)
        requires
            ip_int == v,
    ;
    while i > 0
        invariant
            i <= 8,
            i > 0 ==> ip_int == v >> (((8 - i) * 16) as u128),
            segments@.len() == 8,
            forall|j: int| i <= j < 8 ==> segments@[j] == ipv6_segment(v, j),
        decreases i,
    {
        i -= 1;
        let ghost a: u128 = ((7 - i) * 16) as u128;
        assert(((7 - i) * 16) as u128 == a);
        segments[i] = #[verifier::truncate] ((ip_int & 0xFFFF) as u16);
        if i > 0 {
            let old_int = ip_int;
            ip_int = ip_int >> 16;
            assert(ip_int == v >> ((a + 16) as u128)) by (bit_vector)
                requires
                    old_int == v >> a,
                    ip_int == old_int >> 16u128,
                    a <= 96,
            ;
            assert(((8 - i) * 16) as u128 == (a + 16) as u128);
        }
    }
    assert(segments@ =~= ipv6_segments(v));
    segments
}

/// The network address of `start` under `mask`, as a number.
pub open spec fn ipv4_network(s: Seq<u8>, m: Seq<u8>) -> u32 {
    ipv4_value(s) & ipv4_value(m)
}

/// The broadcast address of `start` under `mask`, as a number.
pub open spec fn ipv4_broadcast(s: Seq<u8>, m: Seq<u8>) -> u32 {
    ipv4_network(s, m) | !ipv4_value(m)
}

/// The inputs on which `iterate_ips` hands out addresses: start and mask
/// of one family; for IPv4, the `n` addresses after `start` end at or
/// before the broadcast address and below the largest address, and `n` is
/// at most the number of addresses the mask spans (which has a bit set);
/// for IPv6, when there are addresses to hand out, the mask has a bit set
/// and the `n` addresses from `start` on do not pass the largest address.
pub open spec fn ip_range_ok(start: IpView, mask: IpView, n: u32) -> bool {
    match (start, mask) {
        (IpView::V4(s), IpView::V4(m)) => {
            &&& ipv4_value(s) + n <= ipv4_broadcast(s, m)
            &&& ipv4_value(s) + n + 1 <= u32::MAX
            &&& octet_ones(m) >= 1
            &&& n <= pow2((32 - octet_ones(m)) as nat)
        },
        (IpView::V6(s), IpView::V6(m)) => n == 0 || (segment_ones(m) >= 1 && ipv6_value(s) + n
            <= u128::MAX),
        _ => false,
    }
}

/// The addresses handed out from `start` under `mask`, and the address
/// given back with them: for IPv4 the `n` addresses after `start` and the
/// network address; for IPv6 the `n` addresses from `start` on, and `start`.
pub open spec fn ip_range(start: IpView, mask: IpView, n: u32) -> (Seq<IpView>, IpView) {
    match (start, mask) {
        (IpView::V4(s), IpView::V4(m)) => (
            Seq::new(n as nat, |i: int| IpView::V4(ipv4_octets((ipv4_value(s) + 1 + i) as u32))),
            IpView::V4(ipv4_octets(ipv4_network(s, m))),
        ),
        _ => (
            Seq::new(
                n as nat,
                |i: int| IpView::V6(ipv6_segments((ipv6_value(start->V6_0) + i) as u128)),
            ),
            start,
        ),
    }
}

fn ipv4_number(o: [u8; 4]) -> (r: u32)
    ensures
        r == ipv4_value(o@),
{
    ((o[0] as u32) << 24) | ((o[1] as u32) << 16) | ((o[2] as u32) << 8) | (o[3] as u32)
}

fn ipv4_from_number(v: u32) -> (r: [u8; 4])
    ensures
        r@ == ipv4_octets(v),
{
    let r = [
        #[verifier::truncate] ((v >> 24) as u8),
        #[verifier::truncate] ((v >> 16) as u8),
        #[verifier::truncate] ((v >> 8) as u8),
        #[verifier::truncate] (v as u8),
    ];
    assert(r@ =~= ipv4_octets(v));
    r
}

/// The addresses to give the clients: for IPv4 the `user_nums` addresses
/// after `start_ip_addr`, with the network address of `start_ip_addr` under
/// `mask`; for IPv6 the `user_nums` addresses from `start_ip_addr` on, with
/// `start_ip_addr`.
pub fn iterate_ips(start_ip_addr: IpAddress, mask: IpAddress, user_nums: u32) -> (r: (
    Vec<IpAddress>,
    IpAddress,
))
    requires
        ip_range_ok(start_ip_addr@, mask@, user_nums),
    ensures
        addr_views(r.0@) == ip_range(start_ip_addr@, mask@, user_nums).0,
        r.1@ == ip_range(start_ip_addr@, mask@, user_nums).1,
{
    match (start_ip_addr, mask) {
        (IpAddress::V4(start_v4), IpAddress::V4(mask_v4)) => {
            let mut ip_addr_vec: Vec<IpAddress> = Vec::new();
            let start_ip = ipv4_number(start_v4);
            let mask_bits = ipv4_number(mask_v4);
            let network = start_ip & mask_bits;
            let network_addr = IpAddress::V4(ipv4_from_number(network));
            let broadcast = network | !mask_bits;
            assert(network <= start_ip) by (bit_vector)
                requires
                    network == start_ip & mask_bits,
            ;
            assert(network <= broadcast) by (bit_vector)
                requires
                    broadcast == network | !mask_bits,
            ;
            let number_of_addresses = calculate_number_of_addresses(IpAddress::V4(mask_v4));
            assert(user_nums <= number_of_addresses);
            let end = start_ip + user_nums + 1;
            let mut ip = start_ip + 1;
            let ghost target = ip_range(start_ip_addr@, mask@, user_nums).0;
            while ip < end
                invariant
                    start_ip + 1 <= ip <= end,
                    end == start_ip + user_nums + 1,
                    start_ip == ipv4_value(start_v4@),
                    target == ip_range(start_ip_addr@, mask@, user_nums).0,
                    start_ip_addr == IpAddress::V4(start_v4),
                    mask == IpAddress::V4(mask_v4),
                    addr_views(ip_addr_vec@) == target.take(ip - start_ip - 1),
                decreases end - ip,
            {
                let a = IpAddress::V4(ipv4_from_number(ip));
                let ghost prev = ip_addr_vec@;
                ip_addr_vec.push(a);
                proof {
                    let idx = ip - start_ip - 1;
                    assert(target.len() == user_nums);
                    assert(target[idx] == IpView::V4(ipv4_octets((start_ip + 1 + idx) as u32)));
                    assert(target[idx] == a@);
                    assert(ip_addr_vec@ == prev.push(a));
                    assert(addr_views(prev.push(a)) =~= addr_views(prev).push(a@));
                    assert(addr_views(ip_addr_vec@) =~= target.take(ip - start_ip));
                }
                ip = ip + 1;
            }
            assert(target.take(user_nums as int) =~= target);
            (ip_addr_vec, network_addr)
        },
        (IpAddress::V6(start_v6), IpAddress::V6(mask_v6)) => {
            let mut ip_addr_vec: Vec<IpAddress> = Vec::new();
            let mut current_ip = start_v6;
            let prefix_len = mask_to_cidr(IpAddress::V6(mask_v6)) as u128;
            let ghost target = ip_range(start_ip_addr@, mask@, user_nums).0;
            let ghost base = ipv6_value(start_v6@);
            proof {
                lemma_segments_of_value(start_v6@);
            }
            let mut k: u32 = 0;
            while k < user_nums
                invariant
                    k <= user_nums,
                    user_nums == 0 || (1 <= prefix_len <= 128 && base + user_nums <= u128::MAX),
                    current_ip@ == ipv6_segments((base + k) as u128),
                    ipv6_value(current_ip@) == base + k,
                    target == ip_range(start_ip_addr@, mask@, user_nums).0,
                    base == ipv6_value(start_v6@),
                    start_ip_addr == IpAddress::V6(start_v6),
                    addr_views(ip_addr_vec@) == target.take(k as int),
                decreases user_nums - k,
            {
                let ghost prev = ip_addr_vec@;
                ip_addr_vec.push(IpAddress::V6(current_ip));
                proof {
                    assert(target[k as int] == IpView::V6(ipv6_segments((base + k) as u128)));
                    assert(addr_views(prev.push(IpAddress::V6(current_ip))) =~= addr_views(prev).push(IpView::V6(current_ip@)));
                    assert(addr_views(ip_addr_vec@) =~= target.take(k + 1));
                }
                current_ip = increment_ipv6(current_ip, prefix_len);
                proof {
                    lemma_value_of_segments((base + k + 1) as u128);
                }
                k += 1;
            }
            assert(target.take(user_nums as int) =~= target);
            (ip_addr_vec, IpAddress::V6(start_v6))
        },
        _ => {
            assert(false);
            (Vec::new(), start_ip_addr)
        },
    }
}

/// Why the addresses of a range cannot be handed out.
#[derive(Clone, Copy, Debug, PartialEq, Eq, Structural)]
pub enum RangeError {
    /// Start address and mask are not of one family.
    MixedFamilies,
    /// The mask has no bit set.
    EmptyMask,
    /// The addresses would pass the broadcast address, or the largest address.
    PastEnd,
    /// There are more addresses than the mask spans.
    TooMany,
}

/// Which check a range fails, in the order they are made; `None` exactly
/// where `ip_range_ok` holds.
pub open spec fn range_error(start: IpView, mask: IpView, n: u32) -> Option<RangeError> {
    match (start, mask) {
        (IpView::V4(s), IpView::V4(m)) => {
            if ipv4_value(s) + n > ipv4_broadcast(s, m) {
                Some(RangeError::PastEnd)
            } else if octet_ones(m) == 0 {
                Some(RangeError::EmptyMask)
            } else if n > pow2((32 - octet_ones(m)) as nat) {
                Some(RangeError::TooMany)
            } else if ipv4_value(s) + n + 1 > u32::MAX {
                Some(RangeError::PastEnd)
            } else {
                None
            }
        },
        (IpView::V6(s), IpView::V6(m)) => {
            if n == 0 {
                None
            } else if segment_ones(m) == 0 {
                Some(RangeError::EmptyMask)
            } else if ipv6_value(s) + n > u128::MAX {
                Some(RangeError::PastEnd)
            } else {
                None
            }
        },
        _ => Some(RangeError::MixedFamilies),
    }
}

/// The 128-bit number of eight segments.
fn ipv6_number(s: [u16; 8]) -> (r: u128)
    ensures
        r == ipv6_value(s@),
{
    let mut v: u128 = 0;
    let mut k: usize = 0;
    assert(s@.take(0) =~= Seq::<u16>::empty());
    while k < 8
        invariant
            k <= 8,
            v == ipv6_partial_value(s@.take(k as int)),
        decreases 8 - k,
    {
        assert(s@.take(k + 1).drop_last() =~= s@.take(k as int));
        v = (v << 16) | s[k] as u128;
        k += 1;
    }
    assert(s@.take(8) =~= s@);
    v
}

/// Whether `iterate_ips` can hand out `user_nums` addresses from
/// `start_ip_addr` under `mask`, and if not, which check fails.
pub fn check_ip_range(start_ip_addr: IpAddress, mask: IpAddress, user_nums: u32) -> (r: Result<
    (),
    RangeError,
>)
    ensures
        match range_error(start_ip_addr@, mask@, user_nums) {
            None => r is Ok,
            Some(e) => r == Err::<(), RangeError>(e),
        },
        r is Ok <==> ip_range_ok(start_ip_addr@, mask@, user_nums),
{
    match (start_ip_addr, mask) {
        (IpAddress::V4(s), IpAddress::V4(m)) => {
            let start = ipv4_number(s);
            let mask_bits = ipv4_number(m);
            let broadcast = (start & mask_bits) | !mask_bits;
            if start as u64 + user_nums as u64 > broadcast as u64 {
                return Err(RangeError::PastEnd);
            }
            if mask_to_cidr(mask) == 0 {
                return Err(RangeError::EmptyMask);
            }
            if user_nums > calculate_number_of_addresses(mask) {
                return Err(RangeError::TooMany);
            }
            if start as u64 + user_nums as u64 + 1 > u32::MAX as u64 {
                return Err(RangeError::PastEnd);
            }
            Ok(())
        },
        (IpAddress::V6(s), IpAddress::V6(_)) => {
            if user_nums == 0 {
                return Ok(());
            }
            if mask_to_cidr(mask) == 0 {
                return Err(RangeError::EmptyMask);
            }
            if ipv6_number(s) > u128::MAX - user_nums as u128 {
                return Err(RangeError::PastEnd);
            }
            Ok(())
        },
        _ => Err(RangeError::MixedFamilies),
    }
}

/// Dotted-decimal text of four octets, as `Ipv4Addr` displays.
pub open spec fn ipv4_text(o: Seq<u8>) -> Seq<char> {
    decimal(o[0] as nat) + "."@ + decimal(o[1] as nat) + "."@ + decimal(o[2] as nat) + "."@
        + decimal(o[3] as nat)
}

/// Lower-case hexadecimal groups joined by `':'`.
pub open spec fn hex_groups(s: Seq<u16>) -> Seq<char>
    decreases s.len(),
{
    if s.len() == 0 {
        Seq::empty()
    } else if s.len() == 1 {
        hex_lower(s[0] as nat)
    } else {
        hex_groups(s.drop_last()) + ":"@ + hex_lower(s.last() as nat)
    }
}

/// A run of segments: where it starts and how many there are.
pub struct Span {
    pub start: nat,
    pub len: nat,
}

/// The longest run of zero segments in `s` found so far (the first of
/// equal length), and the run of zero segments that `s` ends with.
pub open spec fn zero_runs(s: Seq<u16>) -> (Span, Span)
    decreases s.len(),
{
    if s.len() == 0 {
        (Span { start: 0, len: 0 }, Span { start: 0, len: 0 })
    } else {
        let (longest, current) = zero_runs(s.drop_last());
        if s.last() == 0 {
            let cur = Span {
                start: if current.len == 0 {
                    (s.len() - 1) as nat
                } else {
                    current.start
                },
                len: current.len + 1,
            };
            (
                if cur.len > longest.len {
                    cur
                } else {
                    longest
                },
                cur,
            )
        } else {
            (longest, Span { start: 0, len: 0 })
        }
    }
}

/// Whether eight segments are an IPv4-mapped address `::ffff:a.b.c.d`.
pub open spec fn is_ipv4_mapped(s: Seq<u16>) -> bool {
    s[0] == 0 && s[1] == 0 && s[2] == 0 && s[3] == 0 && s[4] == 0 && s[5] == 0xffff
}

/// The octets of the IPv4 address in the last two segments.
pub open spec fn mapped_octets(s: Seq<u16>) -> Seq<u8> {
    seq![(s[6] >> 8u16) as u8, (s[6] & 0xffu16) as u8, (s[7] >> 8u16) as u8, (s[7] & 0xffu16) as u8]
}

/// The text of eight segments, as `Ipv6Addr` displays: an IPv4-mapped
/// address as `::ffff:` and its IPv4 text; otherwise lower-case hexadecimal
/// groups, with the longest run of two or more zero groups (the first, of
/// equal ones) written as `::`.
pub open spec fn ipv6_text(s: Seq<u16>) -> Seq<char> {
    if is_ipv4_mapped(s) {
        "::ffff:"@ + ipv4_text(mapped_octets(s))
    } else {
        let z = zero_runs(s).0;
        if z.len > 1 {
            hex_groups(s.take(z.start as int)) + "::"@ + hex_groups(s.skip((z.start + z.len) as int))
        } else {
            hex_groups(s)
        }
    }
}

/// The text of an address, as `IpAddr` displays.
pub open spec fn ip_text(a: IpView) -> Seq<char> {
    match a {
        IpView::V4(o) => ipv4_text(o),
        IpView::V6(s) => ipv6_text(s),
    }
}

fn push_ipv4(out: &mut Vec<char>, o: [u8; 4])
    ensures
        final(out)@ == old(out)@ + ipv4_text(o@),
{
    let ghost base = out@;
    push_decimal(out, o[0] as u64);
    push_str(out, ".");
    push_decimal(out, o[1] as u64);
    push_str(out, ".");
    push_decimal(out, o[2] as u64);
    push_str(out, ".");
    push_decimal(out, o[3] as u64);
    assert(out@ =~= base + ipv4_text(o@));
}

/// Appends `hex_groups(s[from..to])`.
fn push_hex_groups(out: &mut Vec<char>, s: &[u16; 8], from: usize, to: usize)
    requires
        from <= to <= 8,
    ensures
        final(out)@ == old(out)@ + hex_groups(s@.subrange(from as int, to as int)),
{
    let ghost base = out@;
    let mut i = from;
    assert(s@.subrange(from as int, from as int) =~= Seq::<u16>::empty());
    while i < to
        invariant
            from <= i <= to <= 8,
            out@ == base + hex_groups(s@.subrange(from as int, i as int)),
        decreases to - i,
    {
        let ghost prev = out@;
        if i > from {
            push_str(out, ":");
        }
        push_hex(out, s[i] as u64);
        proof {
            let g = s@.subrange(from as int, i + 1);
            assert(g.drop_last() =~= s@.subrange(from as int, i as int));
            if i == from {
                assert(s@.subrange(from as int, i as int) =~= Seq::<u16>::empty());
                assert(out@ =~= base + hex_groups(g));
            } else {
                assert(out@ =~= base + hex_groups(g));
            }
        }
        i += 1;
    }
}

/// Appends the text of `a`, as `IpAddr` displays it.
pub fn push_ip_text(out: &mut Vec<char>, a: IpAddress)
    ensures
        final(out)@ == old(out)@ + ip_text(a@),
{
    match a {
        IpAddress::V4(o) => push_ipv4(out, o),
        IpAddress::V6(s) => {
            let ghost base = out@;
            if s[0] == 0 && s[1] == 0 && s[2] == 0 && s[3] == 0 && s[4] == 0 && s[5] == 0xffff {
                push_str(out, "::ffff:");
                let m = [
                    #[verifier::truncate] ((s[6] >> 8) as u8),
                    #[verifier::truncate] ((s[6] & 0xff) as u8),
                    #[verifier::truncate] ((s[7] >> 8) as u8),
                    #[verifier::truncate] ((s[7] & 0xff) as u8),
                ];
                assert(m@ =~= mapped_octets(s@));
                push_ipv4(out, m);
                assert(out@ =~= base + ip_text(a@));
            } else {
                let mut longest_start: usize = 0;
                let mut longest_len: usize = 0;
                let mut current_start: usize = 0;
                let mut current_len: usize = 0;
                let mut i: usize = 0;
                assert(s@.take(0) =~= Seq::<u16>::empty());
                while i < 8
                    invariant
                        i <= 8,
                        zero_runs(s@.take(i as int)) == (
                        Span { start: longest_start as nat, len: longest_len as nat },
                        Span { start: current_start as nat, len: current_len as nat },
                        ),
                        longest_len <= i,
                        current_len <= i,
                        longest_start + longest_len <= i,
                        current_start + current_len <= i,
                    decreases 8 - i,
                {
                    assert(s@.take(i + 1).drop_last() =~= s@.take(i as int));
                    if s[i] == 0 {
                        if current_len == 0 {
                            current_start = i;
                        }
                        current_len += 1;
                        if current_len > longest_len {
                            longest_start = current_start;
                            longest_len = current_len;
                        }
                    } else {
                        current_start = 0;
                        current_len = 0;
                    }
                    i += 1;
                }
                assert(s@.take(8) =~= s@);
                if longest_len > 1 {
                    push_hex_groups(out, &s, 0, longest_start);
                    push_str(out, "::");
                    push_hex_groups(out, &s, longest_start + longest_len, 8);
                    assert(s@.subrange(0, longest_start as int) =~= s@.take(longest_start as int));
                    assert(s@.subrange((longest_start + longest_len) as int, 8) =~= s@.skip(
                        (longest_start + longest_len) as int,
                    ));
                } else {
                    push_hex_groups(out, &s, 0, 8);
                    assert(s@.subrange(0, 8) =~= s@);
                }
                assert(out@ =~= base + ip_text(a@));
            }
        },
    }
}


/// The four octets of an IPv4 address give back its number.
pub proof fn lemma_ipv4_value_of_octets(v: u32)
    ensures
        ipv4_value(ipv4_octets(v)) == v,
{
    let o = ipv4_octets(v);
    let (a, b, c, d) = (o[0], o[1], o[2], o[3]);
    assert(a == (v >> 24u32) as u8 && b == (v >> 16u32) as u8 && c == (v >> 8u32) as u8 && d == v as u8);
    assert(((a as u32) << 24u32) | ((b as u32) << 16u32) | ((c as u32) << 8u32) | (d as u32) == v)
        by (bit_vector)
        requires
            a == (v >> 24u32) as u8,
            b == (v >> 16u32) as u8,
            c == (v >> 8u32) as u8,
            d == v as u8,
    ;
}

/// The number of four octets gives back the octets.
pub proof fn lemma_ipv4_octets_of_value(o: Seq<u8>)
    requires
        o.len() == 4,
    ensures
        ipv4_octets(ipv4_value(o)) == o,
{
    let (a, b, c, d) = (o[0], o[1], o[2], o[3]);
    let v = ipv4_value(o);
    assert(v == ((a as u32) << 24u32) | ((b as u32) << 16u32) | ((c as u32) << 8u32) | (d as u32));
    assert((v >> 24u32) as u8 == a && (v >> 16u32) as u8 == b && (v >> 8u32) as u8 == c && v as u8
        == d) by (bit_vector)
        requires
            v == ((a as u32) << 24u32) | ((b as u32) << 16u32) | ((c as u32) << 8u32) | (d as u32),
    ;
    assert(ipv4_octets(v) =~= o);
}

/// Each IPv4 address handed out from a range that can be handed out lies
/// after the network address and at or before the broadcast address, and
/// the `i`-th is the start address plus `i + 1`.
pub proof fn lemma_range_within_network(s: Seq<u8>, m: Seq<u8>, n: u32, i: int)
    requires
        s.len() == 4,
        m.len() == 4,
        ip_range_ok(IpView::V4(s), IpView::V4(m), n),
        0 <= i < n,
    ensures
        ip_range(IpView::V4(s), IpView::V4(m), n).0[i] matches IpView::V4(o) && ipv4_value(o)
            == ipv4_value(s) + 1 + i && ipv4_network(s, m) < ipv4_value(o) <= ipv4_broadcast(s, m),
{
    let v = (ipv4_value(s) + 1 + i) as u32;
    lemma_ipv4_value_of_octets(v);
    let x = ipv4_value(s);
    let y = ipv4_value(m);
    assert(x & y <= x) by (bit_vector);
}

/// The IPv6 addresses handed out from a range are the start address and
/// those after it, one by one.
pub proof fn lemma_range_v6_consecutive(s: Seq<u16>, m: Seq<u16>, n: u32, i: int)
    requires
        s.len() == 8,
        ip_range_ok(IpView::V6(s), IpView::V6(m), n),
        0 <= i < n,
    ensures
        ip_range(IpView::V6(s), IpView::V6(m), n).0[i] matches IpView::V6(g) && ipv6_value(g)
            == ipv6_value(s) + i,
{
    lemma_value_of_segments((ipv6_value(s) + i) as u128);
}


/// No address is handed out twice: the addresses of a range that can be
/// handed out are pairwise different.
pub proof fn lemma_range_distinct(start: IpView, mask: IpView, n: u32, i: int, j: int)
    requires
        ip_range_ok(start, mask, n),
        start is V4 ==> start->V4_0.len() == 4 && mask->V4_0.len() == 4,
        start is V6 ==> start->V6_0.len() == 8,
        0 <= i < n,
        0 <= j < n,
        i != j,
    ensures
        ip_range(start, mask, n).0[i] != ip_range(start, mask, n).0[j],
{
    match (start, mask) {
        (IpView::V4(s), IpView::V4(m)) => {
            lemma_range_within_network(s, m, n, i);
            lemma_range_within_network(s, m, n, j);
        },
        (IpView::V6(s), IpView::V6(m)) => {
            lemma_range_v6_consecutive(s, m, n, i);
            lemma_range_v6_consecutive(s, m, n, j);
        },
        _ => {},
    }
}


/// The runs that `zero_runs` finds lie within the segments and hold only
/// zeros; the current run ends at the last segment.
pub proof fn lemma_zero_runs(s: Seq<u16>)
    ensures
        zero_runs(s).0.start + zero_runs(s).0.len <= s.len(),
        forall|j: int|
            zero_runs(s).0.start <= j < zero_runs(s).0.start + zero_runs(s).0.len ==> #[trigger] s[j]
                == 0,
        zero_runs(s).1.len == 0 || zero_runs(s).1.start + zero_runs(s).1.len == s.len(),
        forall|j: int|
            zero_runs(s).1.start <= j < zero_runs(s).1.start + zero_runs(s).1.len ==> #[trigger] s[j]
                == 0,
    decreases s.len(),
{
    if s.len() > 0 {
        let t = s.drop_last();
        lemma_zero_runs(t);
        let l = zero_runs(s).0;
        let c = zero_runs(s).1;
        assert forall|j: int| c.start <= j < c.start + c.len implies #[trigger] s[j] == 0 by {
            if j < s.len() - 1 {
                assert(s[j] == t[j]);
            }
        }
        assert forall|j: int| l.start <= j < l.start + l.len implies #[trigger] s[j] == 0 by {
            if j < s.len() - 1 {
                assert(s[j] == t[j]);
            }
        }
    }
}

} // verus!
