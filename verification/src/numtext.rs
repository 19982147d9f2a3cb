//! Decimal and hexadecimal numerals: formatting and parsing.

use vstd::prelude::*;

verus! {

/// The character of a digit value, hexadecimal digits above 9 in lower case.
pub open spec fn hex_char(d: nat) -> char {
    if d < 10 {
        (d + 48) as char
    } else {
        (d + 87) as char
    }
}

/// The character of a digit value, hexadecimal digits above 9 in upper case.
pub open spec fn hex_char_upper(d: nat) -> char {
    if d < 10 {
        (d + 48) as char
    } else {
        (d + 55) as char
    }
}

pub fn hex_digit(d: u8) -> (c: char)
    requires
        d < 16,
    ensures
        c == hex_char(d as nat),
{
    if d < 10 {
        (d + 48) as char
    } else {
        (d + 87) as char
    }
}

pub fn hex_digit_upper(d: u8) -> (c: char)
    requires
        d < 16,
    ensures
        c == hex_char_upper(d as nat),
{
    if d < 10 {
        (d + 48) as char
    } else {
        (d + 55) as char
    }
}

/// The decimal numeral of `n`, as `{}` formats an unsigned integer.
pub open spec fn decimal(n: nat) -> Seq<char>
    decreases n,
{
    if n < 10 {
        seq![hex_char(n)]
    } else {
        decimal(n / 10).push(hex_char(n % 10))
    }
}

/// The lower-case hexadecimal numeral of `n`, as `{:x}` formats it.
pub open spec fn hex_lower(n: nat) -> Seq<char>
    decreases n,
{
    if n < 16 {
        seq![hex_char(n)]
    } else {
        hex_lower(n / 16).push(hex_char(n % 16))
    }
}

/// `s` with `'0'`s in front up to `width` characters, as `{:0width$}` pads.
pub open spec fn zero_pad(s: Seq<char>, width: nat) -> Seq<char> {
    if s.len() >= width {
        s
    } else {
        Seq::new((width - s.len()) as nat, |i: int| '0') + s
    }
}

/// Appends the decimal numeral of `n`.
pub fn push_decimal(out: &mut Vec<char>, n: u64)
    ensures
        final(out)@ == old(out)@ + decimal(n as nat),
    decreases n,
{
    if n >= 10 {
        push_decimal(out, n / 10);
    }
    out.push(hex_digit((n % 10) as u8));
    proof {
        if n >= 10 {
            assert(decimal(n as nat) == decimal((n / 10) as nat).push(hex_char((n % 10) as nat)));
        }
    }
    assert(final(out)@ =~= old(out)@ + decimal(n as nat)) by {
        if n < 10 {
            assert(decimal(n as nat) =~= seq![hex_char(n as nat)]);
        }
    }
}

/// Appends the lower-case hexadecimal numeral of `n`.
pub fn push_hex(out: &mut Vec<char>, n: u64)
    ensures
        final(out)@ == old(out)@ + hex_lower(n as nat),
    decreases n,
{
    if n >= 16 {
        push_hex(out, n / 16);
    }
    out.push(hex_digit((n % 16) as u8));
    assert(final(out)@ =~= old(out)@ + hex_lower(n as nat)) by {
        if n < 16 {
            assert(hex_lower(n as nat) =~= seq![hex_char(n as nat)]);
        }
    }
}

pub proof fn lemma_numeral_nonempty(n: nat)
    ensures
        decimal(n).len() >= 1,
        hex_lower(n).len() >= 1,
    decreases n,
{
    if n >= 10 {
        lemma_numeral_nonempty(n / 10);
    }
    if n >= 16 {
        lemma_numeral_nonempty(n / 16);
    }
}

/// Appends the lower-case hexadecimal numeral of `n`, padded with zeros to `width`.
pub fn push_hex_padded(out: &mut Vec<char>, n: u64, width: usize)
    ensures
        final(out)@ == old(out)@ + zero_pad(hex_lower(n as nat), width as nat),
{
    let mut digits: Vec<char> = Vec::new();
    push_hex(&mut digits, n);
    assert(digits@ =~= hex_lower(n as nat));
    let ghost base = out@;
    if digits.len() < width {
        let pad = width - digits.len();
        let mut i: usize = 0;
        while i < pad
            invariant
                i <= pad,
                pad == width - digits.len(),
                out@ == base + Seq::new(i as nat, |k: int| '0'),
            decreases pad - i,
        {
            out.push('0');
            i += 1;
            assert(out@ =~= base + Seq::new(i as nat, |k: int| '0'));
        }
    }
    let ghost mid = out@;
    let mut j: usize = 0;
    while j < digits.len()
        invariant
            j <= digits.len(),
            out@ == mid + digits@.take(j as int),
        decreases digits.len() - j,
    {
        out.push(digits[j]);
        j += 1;
        assert(out@ =~= mid + digits@.take(j as int));
    }
    assert(digits@.take(j as int) =~= digits@);
    assert(out@ =~= base + zero_pad(hex_lower(n as nat), width as nat));
}

pub open spec fn is_digit(c: char) -> bool {
    '0' <= c && c <= '9'
}

pub open spec fn all_digits(s: Seq<char>) -> bool {
    forall|i: int| 0 <= i < s.len() ==> is_digit(#[trigger] s[i])
}

/// The value of a string of decimal digits.
pub open spec fn digits_value(s: Seq<char>) -> nat
    decreases s.len(),
{
    if s.len() == 0 {
        0
    } else {
        digits_value(s.drop_last()) * 10 + ((s.last() as int - 48) as nat)
    }
}

/// The value of `d` when it is one or more digits with a value of at most `max`.
pub open spec fn bounded_digits(d: Seq<char>, max: nat) -> Option<nat> {
    if d.len() > 0 && all_digits(d) && digits_value(d) <= max {
        Some(digits_value(d))
    } else {
        None
    }
}

/// What `from_str` of an unsigned integer type with largest value `max`
/// gives: an optional `'+'`, then one or more ASCII digits, at most `max`.
pub open spec fn parse_uint(s: Seq<char>, max: nat) -> Option<nat> {
    if s.len() > 0 && s[0] == '+' {
        bounded_digits(s.drop_first(), max)
    } else {
        bounded_digits(s, max)
    }
}

/// What `from_str` of a signed integer type gives: an optional sign, then one
/// or more ASCII digits, at most `max_pos` without a `'-'` and at most
/// `max_neg` with one.
pub open spec fn parse_int(s: Seq<char>, max_pos: nat, max_neg: nat) -> Option<int> {
    if s.len() > 0 && s[0] == '-' {
        match bounded_digits(s.drop_first(), max_neg) {
            Some(v) => Some(-v),
            None => None,
        }
    } else {
        match parse_uint(s, max_pos) {
            Some(v) => Some(v as int),
            None => None,
        }
    }
}

pub proof fn lemma_digits_value_prefix(s: Seq<char>, k: int)
    requires
        0 <= k <= s.len(),
    ensures
        digits_value(s.take(k)) <= digits_value(s),
    decreases s.len(),
{
    if k < s.len() {
        assert(s.drop_last().take(k) =~= s.take(k));
        lemma_digits_value_prefix(s.drop_last(), k);
    } else {
        assert(s.take(k) =~= s);
    }
}

/// The value of `s[from..]` when it is one or more digits with a value of at most `max`.
pub fn parse_digits(s: &Vec<char>, from: usize, max: u64) -> (r: Option<u64>)
    requires
        from <= s.len(),
    ensures
        match bounded_digits(s@.skip(from as int), max as nat) {
            Some(v) => r == Some(v as u64),
            None => r is None,
        },
{
    let ghost d = s@.skip(from as int);
    if from == s.len() {
        return None;
    }
    let mut acc: u64 = 0;
    let mut i = from;
    assert(d.take(0) =~= Seq::<char>::empty());
    while i < s.len()
        invariant
            from <= i <= s.len(),
            d == s@.skip(from as int),
            acc as nat == digits_value(d.take(i - from)),
            acc <= max,
            all_digits(d.take(i - from)),
        decreases s.len() - i,
    {
        let c = s[i];
        let ghost k = i - from;
        assert(d[k] == c);
        if !('0' <= c && c <= '9') {
            assert(!all_digits(d));
            return None;
        }
        let dv = (c as u32 - 48) as u64;
        assert(d.take(k + 1).drop_last() =~= d.take(k));
        assert(digits_value(d.take(k + 1)) == acc * 10 + dv);
        if dv > max || acc > (max - dv) / 10 {
            proof {
                assert(acc * 10 + dv > max) by (nonlinear_arith)
                    requires
                        dv > max || acc > (max - dv) / 10,
                        dv <= 9,
                ;
                if all_digits(d) {
                    lemma_digits_value_prefix(d, k + 1);
                }
            }
            return None;
        }
        assert(acc * 10 + dv <= max) by (nonlinear_arith)
            requires
                dv <= max,
                acc <= (max - dv) / 10,
        ;
        acc = acc * 10 + dv;
        i += 1;
        assert(all_digits(d.take(i - from))) by {
            assert forall|j: int| 0 <= j < i - from implies is_digit(#[trigger] d.take(i - from)[j]) by {
                if j < k {
                    assert(d.take(i - from)[j] == d.take(k)[j]);
                }
            }
        }
    }
    assert(d.take(i - from) =~= d);
    Some(acc)
}

/// `parse_uint` on `s`.
pub fn parse_unsigned(s: &Vec<char>, max: u64) -> (r: Option<u64>)
    ensures
        match parse_uint(s@, max as nat) {
            Some(v) => r == Some(v as u64),
            None => r is None,
        },
{
    if s.len() > 0 && s[0] == '+' {
        assert(s@.skip(1) =~= s@.drop_first());
        parse_digits(s, 1, max)
    } else {
        assert(s@.skip(0) =~= s@);
        parse_digits(s, 0, max)
    }
}

/// `parse_int` on `s`, for bounds that fit an `i64`.
pub fn parse_signed(s: &Vec<char>, max_pos: u64, max_neg: u64) -> (r: Option<i64>)
    requires
        max_pos <= i64::MAX,
        max_neg <= i64::MAX,
    ensures
        match parse_int(s@, max_pos as nat, max_neg as nat) {
            Some(v) => r == Some(v as i64),
            None => r is None,
        },
{
    if s.len() > 0 && s[0] == '-' {
        assert(s@.skip(1) =~= s@.drop_first());
        match parse_digits(s, 1, max_neg) {
            Some(v) => Some(-(v as i64)),
            None => None,
        }
    } else {
        match parse_unsigned(s, max_pos) {
            Some(v) => Some(v as i64),
            None => None,
        }
    }
}


/// Two numbers with the same decimal numeral are equal.
pub proof fn lemma_decimal_injective(a: nat, b: nat)
    requires
        decimal(a) == decimal(b),
    ensures
        a == b,
    decreases a,
{
    lemma_numeral_nonempty(a / 10);
    lemma_numeral_nonempty(b / 10);
    if a < 10 && b < 10 {
        assert(decimal(a)[0] == hex_char(a));
        assert(decimal(b)[0] == hex_char(b));
    } else if a >= 10 && b >= 10 {
        assert(decimal(a).drop_last() =~= decimal(a / 10));
        assert(decimal(b).drop_last() =~= decimal(b / 10));
        assert(decimal(a).last() == hex_char(a % 10));
        assert(decimal(b).last() == hex_char(b % 10));
        lemma_decimal_injective(a / 10, b / 10);
    } else if a < 10 {
        assert(decimal(a).len() == 1);
        assert(decimal(b).len() == decimal(b / 10).len() + 1);
    } else {
        assert(decimal(b).len() == 1);
        assert(decimal(a).len() == decimal(a / 10).len() + 1);
    }
}


/// The decimal numeral of `n` is made of digits whose value is `n`.
pub proof fn lemma_decimal_value(n: nat)
    ensures
        decimal(n).len() >= 1,
        all_digits(decimal(n)),
        digits_value(decimal(n)) == n,
    decreases n,
{
    if n < 10 {
        let c = hex_char(n);
        assert(c as int == n + 48);
        assert(decimal(n).drop_last() =~= Seq::<char>::empty());
        assert(digits_value(decimal(n)) == digits_value(decimal(n).drop_last()) * 10 + ((
        decimal(n).last() as int - 48) as nat));
    } else {
        lemma_decimal_value(n / 10);
        let c = hex_char(n % 10);
        assert(c as int == n % 10 + 48);
        assert(decimal(n).drop_last() =~= decimal(n / 10));
        assert(decimal(n).last() == c);
        assert(digits_value(decimal(n)) == digits_value(decimal(n).drop_last()) * 10 + ((
        decimal(n).last() as int - 48) as nat));
        assert(n / 10 * 10 + n % 10 == n);
        assert forall|i: int| 0 <= i < decimal(n).len() implies is_digit(#[trigger] decimal(n)[i]) by {
            if i < decimal(n).len() - 1 {
                assert(decimal(n)[i] == decimal(n / 10)[i]);
            }
        }
    }
}

/// The decimal numeral of a number up to `max` reads back as that number.
pub proof fn lemma_parse_decimal(n: nat, max: nat)
    requires
        n <= max,
    ensures
        parse_uint(decimal(n), max) == Some(n),
{
    lemma_decimal_value(n);
    assert(is_digit(decimal(n)[0]));
}

} // verus!
