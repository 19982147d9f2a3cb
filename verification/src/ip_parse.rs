//! Reading IP addresses from text, with the grammar of `IpAddr::from_str`.

use vstd::prelude::*;

use crate::ip::IpAddress;
use crate::ip::IpView;
use crate::ip::{
    hex_groups, ip_text, ipv4_text, ipv6_text, is_ipv4_mapped, lemma_zero_runs, mapped_octets,
    zero_runs,
};
use crate::numtext::{decimal, hex_char, hex_lower, lemma_decimal_value};
use crate::text::chars_of;

verus! {

/// The value of a digit in `radix` (10 or 16), as `char::to_digit` gives it.
pub open spec fn digit_value(c: char, radix: nat) -> Option<nat> {
    if '0' <= c && c <= '9' {
        Some((c as int - 48) as nat)
    } else if radix == 16 && 'a' <= c && c <= 'f' {
        Some((c as int - 87) as nat)
    } else if radix == 16 && 'A' <= c && c <= 'F' {
        Some((c as int - 55) as nat)
    } else {
        None
    }
}

/// The number of digits in `radix` from `pos` on.
pub open spec fn digit_run(s: Seq<char>, pos: int, radix: nat) -> nat
    decreases s.len() - pos,
{
    if pos < 0 || pos >= s.len() || digit_value(s[pos], radix) is None {
        0
    } else {
        1 + digit_run(s, pos + 1, radix)
    }
}

/// The value of a string of digits in `radix`.
pub open spec fn run_value(d: Seq<char>, radix: nat) -> nat
    decreases d.len(),
{
    if d.len() == 0 {
        0
    } else {
        run_value(d.drop_last(), radix) * radix + match digit_value(d.last(), radix) {
            Some(v) => v,
            None => 0,
        }
    }
}

/// A number at `pos`: all the digits there, between one and `max_digits` of
/// them, with a value of at most `max_value`, and, unless a leading zero is
/// allowed, no leading zero before another digit. Its value and the
/// position after it.
pub open spec fn read_number(
    s: Seq<char>,
    pos: int,
    radix: nat,
    max_digits: nat,
    max_value: nat,
    allow_zero_prefix: bool,
) -> Option<(nat, int)> {
    let n = digit_run(s, pos, radix);
    let v = run_value(s.subrange(pos, pos + n), radix);
    if n == 0 || n > max_digits || v > max_value || (!allow_zero_prefix && s[pos] == '0' && n > 1) {
        None
    } else {
        Some((v, pos + n))
    }
}

/// An octet of an IPv4 address: one to three decimal digits, at most 255, no
/// leading zero.
pub open spec fn read_octet(s: Seq<char>, pos: int) -> Option<(nat, int)> {
    read_number(s, pos, 10, 3, 255, false)
}

/// Whether `c` stands at `pos`.
pub open spec fn after_char(s: Seq<char>, pos: int, c: char) -> bool {
    0 <= pos < s.len() && s[pos] == c
}

/// An IPv4 address at `pos`: four octets separated by dots.
pub open spec fn read_ipv4(s: Seq<char>, pos: int) -> Option<(Seq<u8>, int)> {
    match read_octet(s, pos) {
        None => None,
        Some((a, p1)) => if !after_char(s, p1, '.') {
            None
        } else {
            match read_octet(s, p1 + 1) {
                None => None,
                Some((b, p2)) => if !after_char(s, p2, '.') {
                    None
                } else {
                    match read_octet(s, p2 + 1) {
                        None => None,
                        Some((c, p3)) => if !after_char(s, p3, '.') {
                            None
                        } else {
                            match read_octet(s, p3 + 1) {
                                None => None,
                                Some((d, p4)) => Some((seq![a as u8, b as u8, c as u8, d as u8], p4)),
                            }
                        },
                    }
                },
            }
        },
    }
}

/// The position where group `i` of an IPv6 address starts to be read:
/// after a `':'` unless it is the first group. `None` without the colon.
pub open spec fn group_start(s: Seq<char>, pos: int, i: nat) -> Option<int> {
    if i == 0 {
        Some(pos)
    } else if after_char(s, pos, ':') {
        Some(pos + 1)
    } else {
        None
    }
}

/// The colon-separated groups of an IPv6 address from `pos` on, reading
/// group `i` up to `limit`: each either an embedded IPv4 address (which
/// ends the groups, while two groups are left to fill) or one to four
/// hexadecimal digits. The groups, the position after them, and whether an
/// IPv4 address ended them.
pub open spec fn read_groups(s: Seq<char>, pos: int, i: nat, limit: nat) -> (Seq<u16>, int, bool)
    decreases limit - i,
{
    if i >= limit {
        (Seq::empty(), pos, false)
    } else {
        let v4 = if i + 1 < limit {
            match group_start(s, pos, i) {
                None => None,
                Some(p) => read_ipv4(s, p),
            }
        } else {
            None
        };
        match v4 {
            Some((o, p)) => (
                seq![(o[0] * 256 + o[1]) as u16, (o[2] * 256 + o[3]) as u16],
                p,
                true,
            ),
            None => {
                let g = match group_start(s, pos, i) {
                    None => None,
                    Some(p) => read_number(s, p, 16, 4, 0xffff, true),
                };
                match g {
                    None => (Seq::empty(), pos, false),
                    Some((v, p)) => {
                        let rest = read_groups(s, p, i + 1, limit);
                        (seq![v as u16] + rest.0, rest.1, rest.2)
                    },
                }
            },
        }
    }
}

/// An IPv6 address at `pos`: eight groups, or fewer with one `"::"` that
/// stands for at least one group of zeros (an embedded IPv4 address only at
/// the end).
pub open spec fn read_ipv6(s: Seq<char>, pos: int) -> Option<(Seq<u16>, int)> {
    let (head, p1, head_v4) = read_groups(s, pos, 0, 8);
    if head.len() == 8 {
        Some((head, p1))
    } else if head_v4 {
        None
    } else if after_char(s, p1, ':') && after_char(s, p1 + 1, ':') {
        let (tail, p2, _) = read_groups(s, p1 + 2, 0, (7 - head.len()) as nat);
        Some((head + Seq::new((8 - head.len() - tail.len()) as nat, |i: int| 0u16) + tail, p2))
    } else {
        None
    }
}

/// What `IpAddr::from_str` gives: the whole text an IPv4 address, or else
/// the whole text an IPv6 address.
pub open spec fn parse_ip(s: Seq<char>) -> Option<IpView> {
    match read_ipv4(s, 0) {
        Some((o, p)) => if p == s.len() {
            Some(IpView::V4(o))
        } else {
            None
        },
        None => match read_ipv6(s, 0) {
            Some((g, p)) => if p == s.len() {
                Some(IpView::V6(g))
            } else {
                None
            },
            None => None,
        },
    }
}

/// What `Ipv4Addr::from_str` gives: the whole text an IPv4 address.
pub open spec fn parse_ipv4(s: Seq<char>) -> Option<Seq<u8>> {
    match read_ipv4(s, 0) {
        Some((o, p)) => if p == s.len() {
            Some(o)
        } else {
            None
        },
        None => None,
    }
}

/// A bound on the value of `k` digits in a radix of at most 16.
spec fn digits_cap(k: nat) -> nat
    decreases k,
{
    if k == 0 {
        0
    } else {
        digits_cap((k - 1) as nat) * 16 + 15
    }
}

proof fn lemma_digit_run(s: Seq<char>, pos: int, k: int, radix: nat)
    requires
        0 <= pos,
        0 <= k,
        pos + k <= s.len(),
        forall|j: int| pos <= j < pos + k ==> digit_value(#[trigger] s[j], radix) is Some,
    ensures
        digit_run(s, pos, radix) >= k,
        (pos + k == s.len() || digit_value(s[pos + k], radix) is None) ==> digit_run(s, pos, radix)
            == k,
    decreases k,
{
    if k > 0 {
        lemma_digit_run(s, pos + 1, k - 1, radix);
    }
}

fn digit_of(c: char, radix: u32) -> (r: Option<u32>)
    requires
        radix == 10 || radix == 16,
    ensures
        match digit_value(c, radix as nat) {
            Some(v) => r == Some(v as u32) && v < radix,
            None => r is None,
        },
{
    if '0' <= c && c <= '9' {
        Some(c as u32 - 48)
    } else if radix == 16 && 'a' <= c && c <= 'f' {
        Some(c as u32 - 87)
    } else if radix == 16 && 'A' <= c && c <= 'F' {
        Some(c as u32 - 55)
    } else {
        None
    }
}

/// `read_number` at `pos`.
fn read_number_at(
    s: &Vec<char>,
    pos: usize,
    radix: u32,
    max_digits: usize,
    max_value: u32,
    allow_zero_prefix: bool,
) -> (r: Option<(u32, usize)>)
    requires
        pos <= s.len(),
        radix == 10 || radix == 16,
        1 <= max_digits <= 4,
    ensures
        match read_number(s@, pos as int, radix as nat, max_digits as nat, max_value as nat, allow_zero_prefix) {
            Some((v, p)) => r == Some((v as u32, p as usize)) && p <= s.len(),
            None => r is None,
        },
{
    let mut i = pos;
    let mut v: u32 = 0;
    proof {
        reveal_with_fuel(digits_cap, 5);
    }
    loop
        invariant
            pos <= i <= s.len(),
            i - pos <= max_digits,
            radix == 10 || radix == 16,
            1 <= max_digits <= 4,
            forall|j: int| pos <= j < i ==> digit_value(#[trigger] s@[j], radix as nat) is Some,
            v as nat == run_value(s@.subrange(pos as int, i as int), radix as nat),
            v <= digits_cap((i - pos) as nat),
            digits_cap(4) == 0xffff,
        decreases s.len() - i,
    {
        let d = if i < s.len() {
            digit_of(s[i], radix)
        } else {
            None
        };
        match d {
            None => {
                proof {
                    lemma_digit_run(s@, pos as int, (i - pos) as int, radix as nat);
                }
                let n = i - pos;
                if n == 0 || v > max_value || (!allow_zero_prefix && s[pos] == '0' && n > 1) {
                    return None;
                }
                return Some((v, i));
            },
            Some(dv) => {
                if i - pos == max_digits {
                    proof {
                        lemma_digit_run(s@, pos as int, (i - pos + 1) as int, radix as nat);
                    }
                    return None;
                }
                let ghost k = (i - pos) as nat;
                assert(digits_cap(k) <= 0xfff) by {
                    reveal_with_fuel(digits_cap, 4);
                }
                assert(v * radix <= v * 16) by (nonlinear_arith)
                    requires
                        radix <= 16,
                ;
                assert(digits_cap(k + 1) == digits_cap(k) * 16 + 15);
                assert(s@.subrange(pos as int, i + 1).drop_last() =~= s@.subrange(pos as int, i as int));
                v = v * radix + dv;
                i = i + 1;
            },
        }
    }
}

fn group_start_at(s: &Vec<char>, pos: usize, i: usize) -> (r: Option<usize>)
    requires
        pos <= s.len(),
    ensures
        match group_start(s@, pos as int, i as nat) {
            Some(p) => r == Some(p as usize) && p <= s.len(),
            None => r is None,
        },
{
    if i == 0 {
        Some(pos)
    } else if pos < s.len() && s[pos] == ':' {
        Some(pos + 1)
    } else {
        None
    }
}

/// `read_ipv4` at `pos`.
fn read_ipv4_at(s: &Vec<char>, pos: usize) -> (r: Option<([u8; 4], usize)>)
    requires
        pos <= s.len(),
    ensures
        match read_ipv4(s@, pos as int) {
            Some((o, p)) => r matches Some((a, q)) && a@ == o && q == p && p <= s.len(),
            None => r is None,
        },
{
    let a = match read_number_at(s, pos, 10, 3, 255, false) {
        Some(x) => x,
        None => return None,
    };
    if !(a.1 < s.len() && s[a.1] == '.') {
        return None;
    }
    let b = match read_number_at(s, a.1 + 1, 10, 3, 255, false) {
        Some(x) => x,
        None => return None,
    };
    if !(b.1 < s.len() && s[b.1] == '.') {
        return None;
    }
    let c = match read_number_at(s, b.1 + 1, 10, 3, 255, false) {
        Some(x) => x,
        None => return None,
    };
    if !(c.1 < s.len() && s[c.1] == '.') {
        return None;
    }
    let d = match read_number_at(s, c.1 + 1, 10, 3, 255, false) {
        Some(x) => x,
        None => return None,
    };
    let o = [a.0 as u8, b.0 as u8, c.0 as u8, d.0 as u8];
    assert(o@ =~= read_ipv4(s@, pos as int).unwrap().0);
    Some((o, d.1))
}

/// `read_groups` from `pos`.
fn read_groups_at(s: &Vec<char>, pos: usize, i: usize, limit: usize) -> (r: (Vec<u16>, usize, bool))
    requires
        pos <= s.len(),
        i <= limit <= 8,
    ensures
        (r.0@, r.1 as int, r.2) == read_groups(s@, pos as int, i as nat, limit as nat),
        r.1 <= s.len(),
        r.0.len() <= limit - i,
        r.2 ==> r.0.len() >= 2,
    decreases limit - i,
{
    if i >= limit {
        return (Vec::new(), pos, false);
    }
    if i + 1 < limit {
        if let Some(p) = group_start_at(s, pos, i) {
            if let Some((o, q)) = read_ipv4_at(s, p) {
                let mut g: Vec<u16> = Vec::new();
                g.push(o[0] as u16 * 256 + o[1] as u16);
                g.push(o[2] as u16 * 256 + o[3] as u16);
                assert(g@ =~= read_groups(s@, pos as int, i as nat, limit as nat).0);
                return (g, q, true);
            }
        }
    }
    let g = match group_start_at(s, pos, i) {
        None => None,
        Some(p) => read_number_at(s, p, 16, 4, 0xffff, true),
    };
    match g {
        None => (Vec::new(), pos, false),
        Some((v, p)) => {
            let rest = read_groups_at(s, p, i + 1, limit);
            let mut out: Vec<u16> = Vec::new();
            out.push(v as u16);
            let mut k: usize = 0;
            while k < rest.0.len()
                invariant
                    k <= rest.0.len(),
                    out@ == seq![v as u16] + rest.0@.take(k as int),
                decreases rest.0.len() - k,
            {
                out.push(rest.0[k]);
                k += 1;
                assert(out@ =~= seq![v as u16] + rest.0@.take(k as int));
            }
            assert(rest.0@.take(k as int) =~= rest.0@);
            (out, rest.1, rest.2)
        },
    }
}

/// Group `k` of the eight: from `head` before the zeros, from `tail` after them.
fn group_at(head: &Vec<u16>, tail: &Vec<u16>, k: usize) -> (r: u16)
    requires
        head.len() + tail.len() <= 7,
        k < 8,
    ensures
        r == (head@ + Seq::new((8 - head.len() - tail.len()) as nat, |i: int| 0u16) + tail@)[k as int],
{
    if k < head.len() {
        head[k]
    } else if k >= 8 - tail.len() {
        tail[k - (8 - tail.len())]
    } else {
        0
    }
}

/// `read_ipv6` at `pos`.
fn read_ipv6_at(s: &Vec<char>, pos: usize) -> (r: Option<([u16; 8], usize)>)
    requires
        pos <= s.len(),
    ensures
        match read_ipv6(s@, pos as int) {
            Some((g, p)) => r matches Some((a, q)) && a@ == g && q == p && p <= s.len(),
            None => r is None,
        },
{
    let (head, p1, head_v4) = read_groups_at(s, pos, 0, 8);
    if head.len() == 8 {
        let a = [head[0], head[1], head[2], head[3], head[4], head[5], head[6], head[7]];
        assert(a@ =~= head@);
        return Some((a, p1));
    }
    if head_v4 {
        return None;
    }
    if p1 < s.len() && s[p1] == ':' && p1 + 1 < s.len() && s[p1 + 1] == ':' {
        let (tail, p2, _) = read_groups_at(s, p1 + 2, 0, 7 - head.len());
        let a = [
            group_at(&head, &tail, 0),
            group_at(&head, &tail, 1),
            group_at(&head, &tail, 2),
            group_at(&head, &tail, 3),
            group_at(&head, &tail, 4),
            group_at(&head, &tail, 5),
            group_at(&head, &tail, 6),
            group_at(&head, &tail, 7),
        ];
        assert(a@ =~= head@ + Seq::new((8 - head.len() - tail.len()) as nat, |i: int| 0u16) + tail@);
        Some((a, p2))
    } else {
        None
    }
}

/// The address that `s` spells, as `IpAddr::from_str` reads it; `None`
/// where it is no address.
pub fn parse_ip_text(s: &str) -> (r: Option<IpAddress>)
    ensures
        match parse_ip(s@) {
            Some(a) => r matches Some(x) && x@ == a,
            None => r is None,
        },
{
    let cs = chars_of(s);
    match read_ipv4_at(&cs, 0) {
        Some((o, p)) => if p == cs.len() {
            Some(IpAddress::V4(o))
        } else {
            None
        },
        None => match read_ipv6_at(&cs, 0) {
            Some((g, p)) => if p == cs.len() {
                Some(IpAddress::V6(g))
            } else {
                None
            },
            None => None,
        },
    }
}

/// The four octets that `s` spells, as `Ipv4Addr::from_str` reads them;
/// `None` where it is no IPv4 address.
pub fn parse_ipv4_text(s: &str) -> (r: Option<[u8; 4]>)
    ensures
        match parse_ipv4(s@) {
            Some(o) => r matches Some(x) && x@ == o,
            None => r is None,
        },
{
    let cs = chars_of(s);
    match read_ipv4_at(&cs, 0) {
        Some((o, p)) => if p == cs.len() {
            Some(o)
        } else {
            None
        },
        None => None,
    }
}


/// The decimal numeral of `n` is read back as `n`, and it starts with
/// `'0'` only when it is `"0"`.
proof fn lemma_decimal_run(n: nat)
    ensures
        decimal(n).len() >= 1,
        forall|i: int| 0 <= i < decimal(n).len() ==> digit_value(#[trigger] decimal(n)[i], 10) is Some,
        run_value(decimal(n), 10) == n,
        n >= 1 ==> decimal(n)[0] != '0',
        n < 10 ==> decimal(n).len() == 1,
        n < 100 ==> decimal(n).len() <= 2,
        n < 1000 ==> decimal(n).len() <= 3,
    decreases n,
{
    lemma_decimal_value(n);
    if n < 10 {
        let c = hex_char(n);
        assert(c as int == n + 48);
        assert(decimal(n).drop_last() =~= Seq::<char>::empty());
        assert(digit_value(decimal(n).last(), 10) == Some(n));
        assert(run_value(decimal(n), 10) == run_value(decimal(n).drop_last(), 10) * 10 + n);
        assert(run_value(Seq::<char>::empty(), 10) == 0);
    } else {
        lemma_decimal_run(n / 10);
        let c = hex_char(n % 10);
        assert(c as int == n % 10 + 48);
        assert(decimal(n).drop_last() =~= decimal(n / 10));
        assert(decimal(n).last() == c);
        assert(digit_value(c, 10) == Some(n % 10));
        assert(n / 10 * 10 + n % 10 == n);
        assert(run_value(decimal(n), 10) == run_value(decimal(n / 10), 10) * 10 + n % 10);
        assert(decimal(n)[0] == decimal(n / 10)[0]);
        assert forall|i: int| 0 <= i < decimal(n).len() implies digit_value(
            #[trigger] decimal(n)[i],
            10,
        ) is Some by {
            if i < decimal(n).len() - 1 {
                assert(decimal(n)[i] == decimal(n / 10)[i]);
            }
        }
    }
}

/// An octet written in decimal at `pos`, followed by the end or by a
/// non-digit, reads back as that octet.
proof fn lemma_read_octet_decimal(s: Seq<char>, pos: int, n: nat)
    requires
        n <= 255,
        0 <= pos,
        pos + decimal(n).len() <= s.len(),
        s.subrange(pos, pos + decimal(n).len()) == decimal(n),
        pos + decimal(n).len() == s.len() || digit_value(s[pos + decimal(n).len()], 10) is None,
    ensures
        read_octet(s, pos) == Some((n, pos + decimal(n).len())),
{
    let d = decimal(n);
    lemma_decimal_run(n);
    assert forall|j: int| pos <= j < pos + d.len() implies digit_value(#[trigger] s[j], 10) is Some by {
        assert(s[j] == d[j - pos]);
    }
    lemma_digit_run(s, pos, d.len() as int, 10);
    assert(s[pos] == d[0]);
}

/// The positions in the dotted-decimal text of an address where its
/// octets are written, and the dots between them.
#[verifier::rlimit(40)]
proof fn lemma_ipv4_text_layout(o: Seq<u8>)
    requires
        o.len() == 4,
    ensures
        ({
            let s = ipv4_text(o);
            let p1 = decimal(o[0] as nat).len() as int;
            let p2 = p1 + 1 + decimal(o[1] as nat).len();
            let p3 = p2 + 1 + decimal(o[2] as nat).len();
            let p4 = p3 + 1 + decimal(o[3] as nat).len();
            &&& s.len() == p4
            &&& s.subrange(0, p1) == decimal(o[0] as nat)
            &&& s[p1] == '.'
            &&& s.subrange(p1 + 1, p2) == decimal(o[1] as nat)
            &&& s[p2] == '.'
            &&& s.subrange(p2 + 1, p3) == decimal(o[2] as nat)
            &&& s[p3] == '.'
            &&& s.subrange(p3 + 1, p4) == decimal(o[3] as nat)
        }),
{
    reveal_strlit(".");
    let d0 = decimal(o[0] as nat);
    let d1 = decimal(o[1] as nat);
    let d2 = decimal(o[2] as nat);
    let d3 = decimal(o[3] as nat);
    let s = ipv4_text(o);
    assert(s =~= d0 + seq!['.'] + d1 + seq!['.'] + d2 + seq!['.'] + d3);
    let p1 = d0.len() as int;
    let p2 = p1 + 1 + d1.len();
    let p3 = p2 + 1 + d2.len();
    let p4 = p3 + 1 + d3.len();
    assert(s.subrange(0, p1) =~= d0);
    assert(s.subrange(p1 + 1, p2) =~= d1);
    assert(s.subrange(p2 + 1, p3) =~= d2);
    assert(s.subrange(p3 + 1, p4) =~= d3);
}

/// A piece of a text that stands at `pos` of `s` stands there piece by piece.
proof fn lemma_subrange_shift(s: Seq<char>, pos: int, t: Seq<char>, a: int, b: int)
    requires
        0 <= pos,
        pos + t.len() <= s.len(),
        s.subrange(pos, pos + t.len()) == t,
        0 <= a <= b <= t.len(),
    ensures
        s.subrange(pos + a, pos + b) == t.subrange(a, b),
        a < t.len() ==> s[pos + a] == t[a],
{
    assert forall|k: int| 0 <= k < b - a implies #[trigger] s.subrange(pos + a, pos + b)[k] == t.subrange(a, b)[k] by {
        assert(s.subrange(pos, pos + t.len())[a + k] == s[pos + a + k]);
    }
    assert(s.subrange(pos + a, pos + b) =~= t.subrange(a, b));
    if a < t.len() {
        assert(s.subrange(pos, pos + t.len())[a] == s[pos + a]);
    }
}

/// The dotted-decimal text of an IPv4 address at `pos`, followed by the
/// end or by a non-digit, is read as the address.
#[verifier::spinoff_prover]
#[verifier::rlimit(40)]
proof fn lemma_read_ipv4_at(s: Seq<char>, pos: int, o: Seq<u8>)
    requires
        o.len() == 4,
        0 <= pos,
        pos + ipv4_text(o).len() <= s.len(),
        s.subrange(pos, pos + ipv4_text(o).len()) == ipv4_text(o),
        pos + ipv4_text(o).len() == s.len() || digit_value(s[pos + ipv4_text(o).len()], 10) is None,
    ensures
        read_ipv4(s, pos) == Some((o, pos + ipv4_text(o).len())),
{
    let t = ipv4_text(o);
    lemma_ipv4_text_layout(o);
    lemma_decimal_run(o[0] as nat);
    lemma_decimal_run(o[1] as nat);
    lemma_decimal_run(o[2] as nat);
    lemma_decimal_run(o[3] as nat);
    let p1 = decimal(o[0] as nat).len() as int;
    let p2 = p1 + 1 + decimal(o[1] as nat).len();
    let p3 = p2 + 1 + decimal(o[2] as nat).len();
    let p4 = p3 + 1 + decimal(o[3] as nat).len();
    lemma_subrange_shift(s, pos, t, 0, p1);
    lemma_subrange_shift(s, pos, t, p1, p1);
    lemma_subrange_shift(s, pos, t, p1 + 1, p2);
    lemma_subrange_shift(s, pos, t, p2, p2);
    lemma_subrange_shift(s, pos, t, p2 + 1, p3);
    lemma_subrange_shift(s, pos, t, p3, p3);
    lemma_subrange_shift(s, pos, t, p3 + 1, p4);
    lemma_read_octet_decimal(s, pos, o[0] as nat);
    lemma_read_octet_decimal(s, pos + p1 + 1, o[1] as nat);
    lemma_read_octet_decimal(s, pos + p2 + 1, o[2] as nat);
    lemma_read_octet_decimal(s, pos + p3 + 1, o[3] as nat);
    assert(seq![o[0] as nat as u8, o[1] as nat as u8, o[2] as nat as u8, o[3] as nat as u8] =~= o);
}

/// The dotted-decimal text of an IPv4 address is read as the address.
proof fn lemma_read_ipv4_text(o: Seq<u8>)
    requires
        o.len() == 4,
    ensures
        read_ipv4(ipv4_text(o), 0) == Some((o, ipv4_text(o).len() as int)),
{
    let t = ipv4_text(o);
    assert(t.subrange(0, t.len() as int) =~= t);
    lemma_read_ipv4_at(t, 0, o);
}

/// The dotted-decimal text of an IPv4 address reads back as the address.
pub proof fn lemma_ipv4_text_round_trip(o: Seq<u8>)
    requires
        o.len() == 4,
    ensures
        parse_ipv4(ipv4_text(o)) == Some(o),
        parse_ip(ipv4_text(o)) == Some(IpView::V4(o)),
{
    lemma_read_ipv4_text(o);
}


/// The lower-case hexadecimal numeral of `x` is read back as `x`; it holds
/// neither a colon nor a dot, and has at most four digits below 65536.
pub proof fn lemma_hex_run(x: nat)
    ensures
        hex_lower(x).len() >= 1,
        forall|i: int| 0 <= i < hex_lower(x).len() ==> digit_value(#[trigger] hex_lower(x)[i], 16) is Some,
        forall|i: int| 0 <= i < hex_lower(x).len() ==> #[trigger] hex_lower(x)[i] != ':' && hex_lower(x)[i] != '.',
        run_value(hex_lower(x), 16) == x,
        x < 16 ==> hex_lower(x).len() == 1,
        x < 256 ==> hex_lower(x).len() <= 2,
        x < 4096 ==> hex_lower(x).len() <= 3,
        x < 65536 ==> hex_lower(x).len() <= 4,
    decreases x,
{
    if x < 16 {
        let c = hex_char(x);
        if x < 10 {
            assert(c as int == x + 48);
        } else {
            assert(c as int == x + 87);
        }
        assert(digit_value(c, 16) == Some(x));
        assert(hex_lower(x).drop_last() =~= Seq::<char>::empty());
        assert(run_value(hex_lower(x), 16) == run_value(hex_lower(x).drop_last(), 16) * 16 + x);
        assert(run_value(Seq::<char>::empty(), 16) == 0);
    } else {
        lemma_hex_run(x / 16);
        let c = hex_char(x % 16);
        if x % 16 < 10 {
            assert(c as int == x % 16 + 48);
        } else {
            assert(c as int == x % 16 + 87);
        }
        assert(digit_value(c, 16) == Some(x % 16));
        assert(hex_lower(x).drop_last() =~= hex_lower(x / 16));
        assert(hex_lower(x).last() == c);
        assert(x / 16 * 16 + x % 16 == x);
        assert(run_value(hex_lower(x), 16) == run_value(hex_lower(x / 16), 16) * 16 + x % 16);
        assert forall|i: int| 0 <= i < hex_lower(x).len() implies digit_value(
            #[trigger] hex_lower(x)[i],
            16,
        ) is Some && hex_lower(x)[i] != ':' && hex_lower(x)[i] != '.' by {
            if i < hex_lower(x).len() - 1 {
                assert(hex_lower(x)[i] == hex_lower(x / 16)[i]);
            }
        }
    }
}

/// What `digit_run` counts: digits from `pos` on, up to the end or a
/// character that is no digit.
proof fn lemma_digit_run_props(s: Seq<char>, pos: int, radix: nat)
    requires
        0 <= pos <= s.len(),
    ensures
        pos + digit_run(s, pos, radix) <= s.len(),
        forall|j: int| pos <= j < pos + digit_run(s, pos, radix) ==> digit_value(#[trigger] s[j], radix) is Some,
        pos + digit_run(s, pos, radix) == s.len() || digit_value(s[pos + digit_run(s, pos, radix)], radix) is None,
    decreases s.len() - pos,
{
    if pos < s.len() && digit_value(s[pos], radix) is Some {
        lemma_digit_run_props(s, pos + 1, radix);
    }
}

/// No IPv4 address starts where a hexadecimal group stands that is
/// followed by a colon or the end.
proof fn lemma_no_ipv4_at_group(s: Seq<char>, a: int, x: nat)
    requires
        0 <= a,
        a + hex_lower(x).len() <= s.len(),
        s.subrange(a, a + hex_lower(x).len()) == hex_lower(x),
        a + hex_lower(x).len() == s.len() || s[a + hex_lower(x).len()] == ':',
    ensures
        read_ipv4(s, a) is None,
{
    let h = hex_lower(x);
    let l = h.len() as int;
    lemma_hex_run(x);
    lemma_digit_run_props(s, a, 10);
    let n = digit_run(s, a, 10) as int;
    if n > l {
        assert(digit_value(s[a + l], 10) is Some);
    }
    if n < l {
        assert(s[a + n] == h[n]);
    }
    match read_octet(s, a) {
        None => {},
        Some((v, p1)) => {
            assert(p1 == a + n);
            assert(!after_char(s, p1, '.'));
        },
    }
}

/// A hexadecimal group followed by a colon or the end is read as its value.
proof fn lemma_read_group(s: Seq<char>, a: int, x: nat)
    requires
        x < 65536,
        0 <= a,
        a + hex_lower(x).len() <= s.len(),
        s.subrange(a, a + hex_lower(x).len()) == hex_lower(x),
        a + hex_lower(x).len() == s.len() || s[a + hex_lower(x).len()] == ':',
    ensures
        read_number(s, a, 16, 4, 0xffff, true) == Some((x, a + hex_lower(x).len())),
{
    let h = hex_lower(x);
    lemma_hex_run(x);
    assert forall|j: int| a <= j < a + h.len() implies digit_value(#[trigger] s[j], 16) is Some by {
        assert(s[j] == h[j - a]);
    }
    lemma_digit_run(s, a, h.len() as int, 16);
}


/// The groups of an address written from the front: the first group, then
/// a colon and the others.
proof fn lemma_hex_groups_front(g: Seq<u16>)
    requires
        g.len() >= 1,
    ensures
        g.len() == 1 ==> hex_groups(g) == hex_lower(g[0] as nat),
        g.len() >= 2 ==> hex_groups(g) == hex_lower(g[0] as nat) + ":"@ + hex_groups(g.drop_first()),
    decreases g.len(),
{
    if g.len() == 2 {
        assert(g.drop_last() =~= seq![g[0]]);
        assert(g.drop_first() =~= seq![g[1]]);
        assert(hex_groups(seq![g[0]]) == hex_lower(g[0] as nat));
        assert(hex_groups(seq![g[1]]) == hex_lower(g[1] as nat));
    } else if g.len() > 2 {
        lemma_hex_groups_front(g.drop_last());
        assert(g.drop_last().drop_first() =~= g.drop_first().drop_last());
        assert(g.drop_first().last() == g.last());
        assert(g.drop_last()[0] == g[0]);
        assert(hex_groups(g.drop_first()) == hex_groups(g.drop_first().drop_last()) + ":"@ + hex_lower(
            g.drop_first().last() as nat,
        ));
    }
}

/// The text of groups read from group `i` on: the groups, after a colon
/// unless they are the first.
pub open spec fn groups_text(g: Seq<u16>, i: nat) -> Seq<char> {
    if g.len() == 0 {
        Seq::empty()
    } else if i == 0 {
        hex_groups(g)
    } else {
        ":"@ + hex_groups(g)
    }
}

/// Where reading groups stops: at the end, or at a colon that another
/// colon or the end follows.
pub open spec fn groups_end(s: Seq<char>, q: int) -> bool {
    q == s.len() || (s[q] == ':' && (q + 1 == s.len() || s[q + 1] == ':'))
}

/// Reading groups where it stops reads none.
proof fn lemma_read_groups_stop(s: Seq<char>, p: int, i: nat, limit: nat)
    requires
        0 <= p <= s.len(),
        i <= limit <= 8,
        groups_end(s, p),
    ensures
        read_groups(s, p, i, limit) == (Seq::<u16>::empty(), p, false),
{
    if i < limit {
        if i == 0 {
            assert(group_start(s, p, i) == Some(p));
        }
        match group_start(s, p, i) {
            None => {},
            Some(a) => {
                assert(a == s.len() || s[a] == ':');
                assert(digit_run(s, a, 10) == 0);
                assert(digit_run(s, a, 16) == 0);
                assert(read_ipv4(s, a) is None);
            },
        }
    }
}

/// Groups written from `p` on, up to where reading stops, are read as
/// themselves.
#[verifier::spinoff_prover]
#[verifier::rlimit(40)]
proof fn lemma_read_hex_groups(s: Seq<char>, p: int, g: Seq<u16>, i: nat, limit: nat)
    requires
        0 <= p,
        i + g.len() <= limit <= 8,
        p + groups_text(g, i).len() <= s.len(),
        s.subrange(p, p + groups_text(g, i).len()) == groups_text(g, i),
        groups_end(s, p + groups_text(g, i).len()),
    ensures
        read_groups(s, p, i, limit) == (g, p + groups_text(g, i).len(), false),
    decreases g.len(),
{
    reveal_strlit(":");
    if g.len() == 0 {
        assert(groups_text(g, i) == Seq::<char>::empty());
        lemma_read_groups_stop(s, p, i, limit);
        assert(g =~= Seq::<u16>::empty());
    } else {
        let x = g[0] as nat;
        let h = hex_lower(x);
        let rest = g.drop_first();
        lemma_hex_run(x);
        lemma_hex_groups_front(g);
        let a = if i == 0 { p } else { p + 1 };
        let t = groups_text(g, i);
        if i > 0 {
            assert(s[p] == t[0]);
        }
        assert(group_start(s, p, i) == Some(a));
        let l = h.len() as int;
        let rt = groups_text(rest, i + 1);
        let pre: Seq<char> = if i == 0 { Seq::empty() } else { ":"@ };
        assert(t =~= pre + h + rt);
        assert(pre.len() == a - p);
        let st = s.subrange(p, p + t.len());
        assert forall|k: int| 0 <= k < l implies #[trigger] s.subrange(a, a + l)[k] == h[k] by {
            assert(s[a + k] == st[a - p + k]);
            assert(t[a - p + k] == h[k]);
        }
        assert(s.subrange(a, a + l) =~= h);
        assert forall|k: int| 0 <= k < rt.len() implies #[trigger] s.subrange(a + l, a + l + rt.len())[k]
            == rt[k] by {
            assert(s[a + l + k] == st[a - p + l + k]);
            assert(t[a - p + l + k] == rt[k]);
        }
        assert(s.subrange(a + l, a + l + rt.len()) =~= rt);
        assert(a + l + rt.len() == p + t.len());
        if rest.len() > 0 {
            assert(s[a + l] == rt[0]);
        }
        lemma_no_ipv4_at_group(s, a, x);
        lemma_read_group(s, a, x);
        lemma_read_hex_groups(s, a + l, rest, i + 1, limit);
        assert(seq![x as u16] + rest =~= g);
    }
}


/// Eight groups written out in full are read back as an IPv6 address.
#[verifier::spinoff_prover]
#[verifier::rlimit(40)]
proof fn lemma_read_ipv6_full(s: Seq<u16>)
    requires
        s.len() == 8,
    ensures
        read_ipv4(hex_groups(s), 0) is None,
        read_ipv6(hex_groups(s), 0) == Some((s, hex_groups(s).len() as int)),
{
    reveal_strlit(":");
    let text = hex_groups(s);
    assert(text.subrange(0, text.len() as int) =~= text);
    lemma_read_hex_groups(text, 0, s, 0, 8);
    lemma_hex_groups_front(s);
    let h0 = hex_lower(s[0] as nat);
    assert(text =~= h0 + (":"@ + hex_groups(s.drop_first())));
    assert(text.subrange(0, h0.len() as int) =~= h0);
    assert(text[h0.len() as int] == ':');
    lemma_no_ipv4_at_group(text, 0, s[0] as nat);
}

/// Groups with a run of zeros written as `::` are read back as the
/// address, the run filled in again.
#[verifier::spinoff_prover]
#[verifier::rlimit(40)]
proof fn lemma_read_ipv6_compressed(s: Seq<u16>, start: int, len: int)
    requires
        s.len() == 8,
        0 <= start,
        len >= 2,
        start + len <= 8,
        forall|j: int| start <= j < start + len ==> #[trigger] s[j] == 0,
    ensures
        ({
            let text = hex_groups(s.take(start)) + "::"@ + hex_groups(s.skip(start + len));
            &&& read_ipv4(text, 0) is None
            &&& read_ipv6(text, 0) == Some((s, text.len() as int))
        }),
{
    reveal_strlit("::");
    reveal_strlit(":");
    let head = s.take(start);
    let tail = s.skip(start + len);
    let hh = hex_groups(head);
    let ht = hex_groups(tail);
    let text = hh + "::"@ + ht;
    let h = hh.len() as int;
    assert(text[h] == ':');
    assert(text[h + 1] == ':');
    assert(groups_text(head, 0) == hh);
    assert(groups_text(tail, 0) == ht);
    assert(text.subrange(0, h) =~= hh);
    lemma_read_hex_groups(text, 0, head, 0, 8);
    assert(text.subrange(h + 2, text.len() as int) =~= ht);
    lemma_read_hex_groups(text, h + 2, tail, 0, (7 - head.len()) as nat);
    assert(head + Seq::new((8 - head.len() - tail.len()) as nat, |i: int| 0u16) + tail =~= s);
    if head.len() > 0 {
        lemma_hex_groups_front(head);
        let h0 = hex_lower(head[0] as nat);
        if head.len() >= 2 {
            assert(hh =~= h0 + (":"@ + hex_groups(head.drop_first())));
            assert(hh[h0.len() as int] == ':');
        } else {
            assert(hh == h0);
        }
        assert(text.subrange(0, h0.len() as int) =~= h0);
        assert(text[h0.len() as int] == ':');
        lemma_no_ipv4_at_group(text, 0, head[0] as nat);
    } else {
        assert(text[0] == ':');
        assert(digit_run(text, 0, 10) == 0);
    }
}

proof fn lemma_mapped_group(x: u16)
    ensures
        ((((x >> 8u16) as u8) as nat) * 256 + (((x & 0xffu16) as u8) as nat)) as u16 == x,
{
    let a = (x >> 8u16) as u8;
    let b = (x & 0xffu16) as u8;
    assert((a as u16) * 256 + (b as u16) == x) by (bit_vector)
        requires
            a == (x >> 8u16) as u8,
            b == (x & 0xffu16) as u8,
    ;
}

proof fn lemma_hex_ffff()
    ensures
        hex_lower(0xffff) == seq!['f', 'f', 'f', 'f'],
{
    reveal_with_fuel(hex_lower, 5);
    assert(hex_lower(0xffff) =~= seq!['f', 'f', 'f', 'f']);
}

/// After `::ffff` of an IPv4-mapped address's text come the two groups of
/// its IPv4 address.
#[verifier::spinoff_prover]
#[verifier::rlimit(40)]
proof fn lemma_mapped_rest(m: Seq<u8>)
    requires
        m.len() == 4,
    ensures
        ({
            let text = "::ffff:"@ + ipv4_text(m);
            read_groups(text, 6, 1, 7) == (
                seq![(m[0] * 256 + m[1]) as u16, (m[2] * 256 + m[3]) as u16],
                text.len() as int,
                true,
            )
        }),
{
    reveal_strlit("::ffff:");
    let v4 = ipv4_text(m);
    let text = "::ffff:"@ + v4;
    let n = text.len() as int;
    assert(text[6] == ':');
    assert(text.subrange(7, n) =~= v4);
    lemma_read_ipv4_at(text, 7, m);
    assert(group_start(text, 6, 1) == Some(7int));
}

/// The groups after `::` of an IPv4-mapped address's text: `ffff`, then
/// the two groups of the IPv4 address.
#[verifier::spinoff_prover]
#[verifier::rlimit(40)]
proof fn lemma_mapped_tail(m: Seq<u8>)
    requires
        m.len() == 4,
    ensures
        ({
            let text = "::ffff:"@ + ipv4_text(m);
            read_groups(text, 2, 0, 7) == (
                seq![0xffffu16, (m[0] * 256 + m[1]) as u16, (m[2] * 256 + m[3]) as u16],
                text.len() as int,
                true,
            )
        }),
{
    reveal_strlit("::ffff:");
    let text = "::ffff:"@ + ipv4_text(m);
    lemma_hex_ffff();
    let ffff = hex_lower(0xffff);
    assert(text.subrange(2, 6) =~= ffff);
    assert(text[6] == ':');
    assert(text[2] == 'f');
    assert(digit_run(text, 2, 10) == 0);
    assert(read_ipv4(text, 2) is None);
    lemma_read_group(text, 2, 0xffff);
    lemma_mapped_rest(m);
    let rest = read_groups(text, 6, 1, 7);
    assert(seq![0xffffu16] + rest.0 =~= seq![0xffffu16, (m[0] * 256 + m[1]) as u16, (m[2] * 256
        + m[3]) as u16]);
}

/// An IPv4-mapped address written as `::ffff:` and its IPv4 text is read
/// back as the address.
#[verifier::spinoff_prover]
#[verifier::rlimit(40)]
proof fn lemma_read_ipv6_mapped(s: Seq<u16>)
    requires
        s.len() == 8,
        is_ipv4_mapped(s),
    ensures
        read_ipv4("::ffff:"@ + ipv4_text(mapped_octets(s)), 0) is None,
        read_ipv6("::ffff:"@ + ipv4_text(mapped_octets(s)), 0) == Some(
            (s, ("::ffff:"@ + ipv4_text(mapped_octets(s))).len() as int),
        ),
{
    reveal_strlit("::ffff:");
    let m = mapped_octets(s);
    let text = "::ffff:"@ + ipv4_text(m);
    assert(text[0] == ':');
    assert(text[1] == ':');
    assert(digit_run(text, 0, 10) == 0);
    assert(groups_text(Seq::<u16>::empty(), 0) == Seq::<char>::empty());
    assert(text.subrange(0, 0) =~= Seq::<char>::empty());
    lemma_read_hex_groups(text, 0, Seq::<u16>::empty(), 0, 8);
    lemma_mapped_tail(m);
    lemma_mapped_group(s[6]);
    lemma_mapped_group(s[7]);
    let tail = read_groups(text, 2, 0, 7).0;
    assert(Seq::<u16>::empty() + Seq::new((8 - 0 - tail.len()) as nat, |i: int| 0u16) + tail =~= s);
}

/// The text of an IPv6 address, as `Ipv6Addr` displays it, reads back as
/// the address.
pub proof fn lemma_ipv6_text_round_trip(s: Seq<u16>)
    requires
        s.len() == 8,
    ensures
        parse_ip(ipv6_text(s)) == Some(IpView::V6(s)),
{
    if is_ipv4_mapped(s) {
        lemma_read_ipv6_mapped(s);
    } else {
        let z = zero_runs(s).0;
        lemma_zero_runs(s);
        if z.len > 1 {
            lemma_read_ipv6_compressed(s, z.start as int, z.len as int);
        } else {
            lemma_read_ipv6_full(s);
        }
    }
}

/// The text of an IP address, as `IpAddr` displays it, reads back as the
/// address.
pub proof fn lemma_ip_text_round_trip(a: IpView)
    requires
        a is V4 ==> a->V4_0.len() == 4,
        a is V6 ==> a->V6_0.len() == 8,
    ensures
        parse_ip(ip_text(a)) == Some(a),
{
    match a {
        IpView::V4(o) => lemma_ipv4_text_round_trip(o),
        IpView::V6(s) => lemma_ipv6_text_round_trip(s),
    }
}


/// Zeros in front of hexadecimal digits leave their value as it is.
pub proof fn lemma_leading_zeros_value(z: nat, s: Seq<char>)
    ensures
        run_value(Seq::new(z, |i: int| '0') + s, 16) == run_value(s, 16),
    decreases s.len(),
{
    let zs = Seq::new(z, |i: int| '0');
    if s.len() == 0 {
        assert(zs + s =~= zs);
        lemma_zeros_value(z);
    } else {
        assert((zs + s).drop_last() =~= zs + s.drop_last());
        assert((zs + s).last() == s.last());
        lemma_leading_zeros_value(z, s.drop_last());
    }
}

proof fn lemma_zeros_value(z: nat)
    ensures
        run_value(Seq::new(z, |i: int| '0'), 16) == 0,
    decreases z,
{
    if z > 0 {
        assert(Seq::new(z, |i: int| '0').drop_last() =~= Seq::new((z - 1) as nat, |i: int| '0'));
        lemma_zeros_value((z - 1) as nat);
    }
}

} // verus!
