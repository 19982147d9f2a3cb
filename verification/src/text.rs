//! Character-level text processing on `Seq<char>`, with executable
//! counterparts over `Vec<char>` and `String`.

use vstd::prelude::*;

use crate::boundary::push_char;

verus! {

/// The Unicode `White_Space` property, which `char::is_whitespace`,
/// `str::trim` and `str::split_whitespace` use.
pub open spec fn is_ws(c: char) -> bool {
    ||| ('\u{9}' <= c && c <= '\u{d}')
    ||| c == ' '
    ||| c == '\u{85}'
    ||| c == '\u{a0}'
    ||| c == '\u{1680}'
    ||| ('\u{2000}' <= c && c <= '\u{200a}')
    ||| c == '\u{2028}'
    ||| c == '\u{2029}'
    ||| c == '\u{202f}'
    ||| c == '\u{205f}'
    ||| c == '\u{3000}'
}

/// Whether `c` has the Unicode `White_Space` property.
pub fn is_whitespace(c: char) -> (r: bool)
    ensures
        r == is_ws(c),
{
    ('\u{9}' <= c && c <= '\u{d}') || c == ' ' || c == '\u{85}' || c == '\u{a0}' || c == '\u{1680}'
        || ('\u{2000}' <= c && c <= '\u{200a}') || c == '\u{2028}' || c == '\u{2029}'
        || c == '\u{202f}' || c == '\u{205f}' || c == '\u{3000}'
}

/// A class of characters that a scan stops at.
pub enum CharClass {
    Exactly(char),
    Space,
    NonSpace,
}

pub open spec fn in_class(c: char, k: CharClass) -> bool {
    match k {
        CharClass::Exactly(x) => c == x,
        CharClass::Space => is_ws(c),
        CharClass::NonSpace => !is_ws(c),
    }
}

/// Index of the first character of `s` in class `k`, or `s.len()` when there is none.
pub open spec fn first_in(s: Seq<char>, k: CharClass) -> nat
    decreases s.len(),
{
    if s.len() == 0 {
        0
    } else if in_class(s[0], k) {
        0
    } else {
        1 + first_in(s.drop_first(), k)
    }
}

pub proof fn lemma_first_in(s: Seq<char>, k: CharClass)
    ensures
        first_in(s, k) <= s.len(),
        forall|j: int| 0 <= j < first_in(s, k) ==> !in_class(#[trigger] s[j], k),
        first_in(s, k) < s.len() ==> in_class(s[first_in(s, k) as int], k),
    decreases s.len(),
{
    if s.len() > 0 && !in_class(s[0], k) {
        lemma_first_in(s.drop_first(), k);
        assert forall|j: int| 0 <= j < first_in(s, k) implies !in_class(#[trigger] s[j], k) by {
            if j > 0 {
                assert(s[j] == s.drop_first()[j - 1]);
            }
        }
    }
}

/// `first_in` is the one position before which no character is in the class
/// and at which (unless it is the end) one is.
pub proof fn lemma_first_in_at(s: Seq<char>, k: CharClass, n: int)
    requires
        0 <= n <= s.len(),
        forall|j: int| 0 <= j < n ==> !in_class(#[trigger] s[j], k),
        n < s.len() ==> in_class(s[n], k),
    ensures
        first_in(s, k) == n,
{
    lemma_first_in(s, k);
    let f = first_in(s, k) as int;
    if f < n {
        assert(!in_class(s[f], k));
    } else if n < f {
        assert(!in_class(s[n], k));
    }
}

/// Drops one `'\r'` at the end of a line.
pub open spec fn strip_cr(l: Seq<char>) -> Seq<char> {
    if l.len() > 0 && l.last() == '\r' {
        l.drop_last()
    } else {
        l
    }
}

/// The lines of `s` as `str::lines` yields them: split at each `'\n'`, one
/// `'\r'` before the `'\n'` dropped, no empty line after a final `'\n'`.
pub open spec fn lines(s: Seq<char>) -> Seq<Seq<char>>
    decreases s.len(),
{
    if s.len() == 0 {
        Seq::empty()
    } else {
        let n = first_in(s, CharClass::Exactly('\n'));
        if n >= s.len() {
            seq![s]
        } else {
            seq![strip_cr(s.take(n as int))] + lines(s.skip((n + 1) as int))
        }
    }
}

/// The views of a sequence of character vectors.
pub open spec fn views(v: Seq<Vec<char>>) -> Seq<Seq<char>> {
    v.map_values(|l: Vec<char>| l@)
}

/// The characters of `s`, in order.
pub fn chars_of(s: &str) -> (r: Vec<char>)
    ensures
        r@ == s@,
{
    let mut r: Vec<char> = Vec::new();
    let n = s.unicode_len();
    let mut i: usize = 0;
    while i < n
        invariant
            n == s@.len(),
            i <= n,
            r@ == s@.take(i as int),
        decreases n - i,
    {
        let c = s.get_char(i);
        r.push(c);
        i += 1;
        assert(r@ =~= s@.take(i as int));
    }
    assert(r@ =~= s@);
    r
}

/// The characters of `s` from position `from` up to, not including, `to`.
pub fn copy_range(s: &Vec<char>, from: usize, to: usize) -> (r: Vec<char>)
    requires
        from <= to <= s.len(),
    ensures
        r@ == s@.subrange(from as int, to as int),
{
    let mut r: Vec<char> = Vec::new();
    let mut i = from;
    while i < to
        invariant
            from <= i <= to <= s.len(),
            r@ == s@.subrange(from as int, i as int),
        decreases to - i,
    {
        r.push(s[i]);
        i += 1;
        assert(r@ =~= s@.subrange(from as int, i as int));
    }
    r
}

/// Splits `s` into its lines, as `lines` describes.
pub fn split_lines(s: &Vec<char>) -> (r: Vec<Vec<char>>)
    ensures
        views(r@) == lines(s@),
{
    let mut out: Vec<Vec<char>> = Vec::new();
    let mut start: usize = 0;
    let mut i: usize = 0;
    let ghost nl = CharClass::Exactly('\n');
    assert(s@.skip(0) =~= s@);
    while i < s.len()
        invariant
            start <= i <= s.len(),
            nl == CharClass::Exactly('\n'),
            lines(s@) == views(out@) + lines(s@.skip(start as int)),
            forall|j: int| start <= j < i ==> s@[j] != '\n',
        decreases s.len() - i,
    {
        if s[i] == '\n' {
            let end = if i > start && s[i - 1] == '\r' {
                i - 1
            } else {
                i
            };
            let line = copy_range(s, start, end);
            proof {
                let t = s@.skip(start as int);
                let n = i - start;
                assert forall|j: int| 0 <= j < n implies !in_class(#[trigger] t[j], nl) by {
                    assert(t[j] == s@[start + j]);
                }
                lemma_first_in_at(t, nl, n);
                assert(t.take(n) =~= s@.subrange(start as int, i as int));
                assert(t.skip(n + 1) =~= s@.skip(i + 1));
                assert(line@ =~= strip_cr(t.take(n)));
                assert(lines(t) == seq![strip_cr(t.take(n))] + lines(t.skip(n + 1)));
                assert(views(out@.push(line)) =~= views(out@).push(line@));
            }
            out.push(line);
            start = i + 1;
            proof {
                assert(lines(s@) =~= views(out@) + lines(s@.skip(start as int)));
            }
        }
        i += 1;
    }
    if start < s.len() {
        let line = copy_range(s, start, s.len());
        proof {
            let t = s@.skip(start as int);
            let n = s.len() - start;
            assert forall|j: int| 0 <= j < n implies !in_class(#[trigger] t[j], nl) by {
                assert(t[j] == s@[start + j]);
            }
            lemma_first_in_at(t, nl, n);
            assert(line@ =~= t);
            assert(views(out@.push(line)) =~= views(out@).push(line@));
        }
        out.push(line);
    } else {
        assert(s@.skip(start as int) =~= Seq::<char>::empty());
    }
    assert(lines(s@) =~= views(out@));
    out
}

/// The whitespace-separated words of `s`, as `str::split_whitespace` yields them.
pub open spec fn words(s: Seq<char>) -> Seq<Seq<char>>
    decreases s.len(),
{
    if s.len() == 0 {
        Seq::empty()
    } else if is_ws(s[0]) {
        words(s.drop_first())
    } else {
        let n = first_in(s, CharClass::Space);
        proof {
            lemma_first_in(s, CharClass::Space);
        }
        seq![s.take(n as int)] + words(s.skip(n as int))
    }
}

/// Splits `s` into its words, as `words` describes.
pub fn split_words(s: &Vec<char>) -> (r: Vec<Vec<char>>)
    ensures
        views(r@) == words(s@),
{
    let mut out: Vec<Vec<char>> = Vec::new();
    let mut i: usize = 0;
    assert(s@.skip(0) =~= s@);
    while i < s.len()
        invariant
            i <= s.len(),
            words(s@) == views(out@) + words(s@.skip(i as int)),
        decreases s.len() - i,
    {
        if is_whitespace(s[i]) {
            assert(s@.skip(i as int).drop_first() =~= s@.skip(i + 1));
            i += 1;
        } else {
            let mut j = i + 1;
            while j < s.len() && !is_whitespace(s[j])
                invariant
                    i < j <= s.len(),
                    forall|k: int| i <= k < j ==> !is_ws(#[trigger] s@[k]),
                decreases s.len() - j,
            {
                j += 1;
            }
            let w = copy_range(s, i, j);
            proof {
                let t = s@.skip(i as int);
                let n = j - i;
                assert forall|k: int| 0 <= k < n implies !in_class(#[trigger] t[k], CharClass::Space) by {
                    assert(t[k] == s@[i + k]);
                }
                lemma_first_in_at(t, CharClass::Space, n);
                assert(t.take(n) =~= w@);
                assert(t.skip(n) =~= s@.skip(j as int));
                assert(views(out@.push(w)) =~= views(out@).push(w@));
            }
            out.push(w);
            i = j;
            proof {
                assert(words(s@) =~= views(out@) + words(s@.skip(i as int)));
            }
        }
    }
    assert(s@.skip(i as int) =~= Seq::<char>::empty());
    assert(words(s@) =~= views(out@));
    out
}

/// `s` without trailing whitespace.
pub open spec fn trim_end(s: Seq<char>) -> Seq<char>
    decreases s.len(),
{
    if s.len() > 0 && is_ws(s.last()) {
        trim_end(s.drop_last())
    } else {
        s
    }
}

/// `s` without leading and trailing whitespace, as `str::trim` gives it.
pub open spec fn trim(s: Seq<char>) -> Seq<char> {
    trim_end(s.skip(first_in(s, CharClass::NonSpace) as int))
}

/// The characters of `s` from `from` to `to`, trimmed.
pub fn trimmed_range(s: &Vec<char>, from: usize, to: usize) -> (r: Vec<char>)
    requires
        from <= to <= s.len(),
    ensures
        r@ == trim(s@.subrange(from as int, to as int)),
{
    let ghost t = s@.subrange(from as int, to as int);
    let mut lo = from;
    while lo < to && is_whitespace(s[lo])
        invariant
            from <= lo <= to <= s.len(),
            t == s@.subrange(from as int, to as int),
            forall|k: int| from <= k < lo ==> is_ws(#[trigger] s@[k]),
        decreases to - lo,
    {
        lo += 1;
    }
    proof {
        assert forall|k: int| 0 <= k < lo - from implies !in_class(#[trigger] t[k], CharClass::NonSpace) by {
            assert(t[k] == s@[from + k]);
        }
        lemma_first_in_at(t, CharClass::NonSpace, lo - from);
        assert(t.skip(lo - from) =~= s@.subrange(lo as int, to as int));
    }
    let mut hi = to;
    while hi > lo && is_whitespace(s[hi - 1])
        invariant
            from <= lo <= hi <= to <= s.len(),
            trim(t) == trim_end(s@.subrange(lo as int, hi as int)),
        decreases hi,
    {
        proof {
            assert(s@.subrange(lo as int, hi as int).drop_last() =~= s@.subrange(lo as int, hi - 1));
        }
        hi -= 1;
    }
    copy_range(s, lo, hi)
}

/// Everything after the first `c` in `s`, or nothing when `s` holds no `c`:
/// what `s.splitn(2, c).nth(1).unwrap_or("")` gives.
pub open spec fn after_first(s: Seq<char>, c: char) -> Seq<char> {
    let n = first_in(s, CharClass::Exactly(c));
    if n < s.len() {
        s.skip((n + 1) as int)
    } else {
        Seq::empty()
    }
}

/// The text between the first and the second `c` in `s` (or the end of `s`),
/// or nothing when `s` holds no `c`: what
/// `s.split(c).skip(1).next().unwrap_or("")` gives.
pub open spec fn second_field(s: Seq<char>, c: char) -> Seq<char> {
    let rest = after_first(s, c);
    rest.take(first_in(rest, CharClass::Exactly(c)) as int)
}

/// Position of the first `c` in `s`, or `s.len()`.
pub fn find_char(s: &Vec<char>, from: usize, c: char) -> (r: usize)
    requires
        from <= s.len(),
    ensures
        from <= r <= s.len(),
        r - from == first_in(s@.skip(from as int), CharClass::Exactly(c)),
{
    let mut i = from;
    while i < s.len() && s[i] != c
        invariant
            from <= i <= s.len(),
            forall|k: int| from <= k < i ==> #[trigger] s@[k] != c,
        decreases s.len() - i,
    {
        i += 1;
    }
    proof {
        let t = s@.skip(from as int);
        assert forall|k: int| 0 <= k < i - from implies !in_class(#[trigger] t[k], CharClass::Exactly(c)) by {
            assert(t[k] == s@[from + k]);
        }
        lemma_first_in_at(t, CharClass::Exactly(c), i - from);
    }
    i
}

/// `trim(after_first(s, c))`.
pub fn trimmed_after_first(s: &Vec<char>, c: char) -> (r: Vec<char>)
    ensures
        r@ == trim(after_first(s@, c)),
{
    let n = find_char(s, 0, c);
    assert(s@.skip(0) =~= s@);
    if n < s.len() {
        let r = trimmed_range(s, n + 1, s.len());
        assert(s@.subrange(n + 1, s.len() as int) =~= s@.skip(n + 1));
        r
    } else {
        let r = trimmed_range(s, 0, 0);
        assert(s@.subrange(0, 0) =~= Seq::<char>::empty());
        r
    }
}

/// `trim(second_field(s, c))`.
pub fn trimmed_second_field(s: &Vec<char>, c: char) -> (r: Vec<char>)
    ensures
        r@ == trim(second_field(s@, c)),
{
    let n = find_char(s, 0, c);
    assert(s@.skip(0) =~= s@);
    if n < s.len() {
        let m = find_char(s, n + 1, c);
        assert(after_first(s@, c) =~= s@.skip(n + 1));
        assert(s@.subrange(n + 1, m as int) =~= s@.skip(n + 1).take(m - (n + 1)));
        trimmed_range(s, n + 1, m)
    } else {
        let r = trimmed_range(s, 0, 0);
        assert(s@.subrange(0, 0) =~= Seq::<char>::empty());
        assert(second_field(s@, c) =~= Seq::<char>::empty());
        r
    }
}

/// Whether `p` is a prefix of `s`.
pub fn starts_with(s: &Vec<char>, p: &str) -> (r: bool)
    ensures
        r == p@.is_prefix_of(s@),
{
    let pc = chars_of(p);
    if pc.len() > s.len() {
        return false;
    }
    let mut i: usize = 0;
    while i < pc.len()
        invariant
            pc@ == p@,
            pc.len() <= s.len(),
            i <= pc.len(),
            forall|k: int| 0 <= k < i ==> #[trigger] s@[k] == pc@[k],
        decreases pc.len() - i,
    {
        if s[i] != pc[i] {
            assert(s@.subrange(0, pc.len() as int)[i as int] != p@[i as int]);
            return false;
        }
        i += 1;
    }
    assert(p@ =~= s@.subrange(0, p@.len() as int));
    true
}

/// Whether `p` occurs in `s`.
pub open spec fn contains_seq(s: Seq<char>, p: Seq<char>) -> bool {
    exists|i: int| 0 <= i && i + p.len() <= s.len() && #[trigger] s.subrange(i, i + p.len()) == p
}

/// Whether `p` occurs in `s`.
pub fn contains(s: &Vec<char>, p: &str) -> (r: bool)
    ensures
        r == contains_seq(s@, p@),
{
    let pc = chars_of(p);
    if pc.len() > s.len() {
        return false;
    }
    let mut i: usize = 0;
    while i <= s.len() - pc.len()
        invariant
            pc@ == p@,
            pc.len() <= s.len(),
            i <= s.len() - pc.len() + 1,
            forall|k: int| 0 <= k < i ==> #[trigger] s@.subrange(k, k + pc.len()) != p@,
        decreases s.len() - i,
    {
        let mut j: usize = 0;
        let mut same = true;
        while j < pc.len()
            invariant
                pc@ == p@,
                i + pc.len() <= s.len(),
                j <= pc.len(),
                same == (forall|k: int| 0 <= k < j ==> #[trigger] s@[i + k] == pc@[k]),
            decreases pc.len() - j,
        {
            if s[i + j] != pc[j] {
                same = false;
            }
            j += 1;
        }
        if same {
            assert forall|k: int| 0 <= k < pc.len() implies #[trigger] s@.subrange(i as int, i + pc.len())[k] == p@[k] by {
                assert(s@[i + k] == pc@[k]);
            }
            assert(s@.subrange(i as int, i + pc.len()) =~= p@);
            return true;
        } else {
            proof {
                let k = choose|k: int| 0 <= k < pc.len() && s@[i + k] != pc@[k];
                assert(s@.subrange(i as int, i + pc.len())[k] != p@[k]);
            }
        }
        i += 1;
    }
    false
}

/// The words joined with one space between neighbours.
pub open spec fn join_spaced(ws: Seq<Seq<char>>) -> Seq<char>
    decreases ws.len(),
{
    if ws.len() == 0 {
        Seq::empty()
    } else if ws.len() == 1 {
        ws[0]
    } else {
        join_spaced(ws.drop_last()) + seq![' '] + ws.last()
    }
}

/// Joins `ws[from..]` with single spaces.
pub fn join_spaced_from(ws: &Vec<Vec<char>>, from: usize) -> (r: Vec<char>)
    requires
        from <= ws.len(),
    ensures
        r@ == join_spaced(views(ws@).skip(from as int)),
{
    let mut r: Vec<char> = Vec::new();
    let mut i = from;
    assert(views(ws@).skip(from as int).take(0) =~= Seq::<Seq<char>>::empty());
    while i < ws.len()
        invariant
            from <= i <= ws.len(),
            r@ == join_spaced(views(ws@).skip(from as int).take(i - from)),
        decreases ws.len() - i,
    {
        let ghost prev = views(ws@).skip(from as int).take(i - from);
        let ghost next = views(ws@).skip(from as int).take(i + 1 - from);
        assert(next.drop_last() =~= prev);
        assert(next.last() == ws@[i as int]@);
        if i > from {
            r.push(' ');
        }
        let w = &ws[i];
        let mut j: usize = 0;
        let ghost base = r@;
        while j < w.len()
            invariant
                j <= w.len(),
                r@ == base + w@.take(j as int),
            decreases w.len() - j,
        {
            r.push(w[j]);
            j += 1;
            assert(r@ =~= base + w@.take(j as int));
        }
        assert(w@.take(j as int) =~= w@);
        proof {
            if i == from {
                assert(r@ =~= join_spaced(next));
            } else {
                assert(r@ =~= join_spaced(next));
            }
        }
        i += 1;
    }
    assert(views(ws@).skip(from as int).take(i - from) =~= views(ws@).skip(from as int));
    r
}

/// A `String` holding the characters of `v`.
pub fn string_of(v: &Vec<char>) -> (r: String)
    ensures
        r@ == v@,
{
    let mut r = String::new();
    let mut i: usize = 0;
    while i < v.len()
        invariant
            i <= v.len(),
            r@ == v@.take(i as int),
        decreases v.len() - i,
    {
        push_char(&mut r, v[i]);
        i += 1;
        assert(r@ =~= v@.take(i as int));
    }
    assert(v@.take(i as int) =~= v@);
    r
}

/// Appends the characters of `s` to `out`.
pub fn push_str(out: &mut Vec<char>, s: &str)
    ensures
        final(out)@ == old(out)@ + s@,
{
    let cs = chars_of(s);
    push_all(out, &cs);
}

/// Appends the characters of `v` to `out`.
pub fn push_all(out: &mut Vec<char>, v: &Vec<char>)
    ensures
        final(out)@ == old(out)@ + v@,
{
    let ghost base = out@;
    let mut i: usize = 0;
    while i < v.len()
        invariant
            i <= v.len(),
            out@ == base + v@.take(i as int),
        decreases v.len() - i,
    {
        out.push(v[i]);
        i += 1;
        assert(out@ =~= base + v@.take(i as int));
    }
    assert(v@.take(i as int) =~= v@);
}

/// Whether `s` holds exactly the characters of `p`.
pub fn equals_str(s: &Vec<char>, p: &str) -> (r: bool)
    ensures
        r == (s@ == p@),
{
    let pre = starts_with(s, p);
    let n = p.unicode_len();
    if pre && s.len() == n {
        assert(s@ =~= p@);
        true
    } else {
        false
    }
}


/// No character of `s` is whitespace.
pub open spec fn no_ws(s: Seq<char>) -> bool {
    forall|i: int| 0 <= i < s.len() ==> !is_ws(#[trigger] s[i])
}

/// No character of `s` is a line feed.
pub open spec fn no_line_feed(s: Seq<char>) -> bool {
    forall|i: int| 0 <= i < s.len() ==> #[trigger] s[i] != '\n'
}

/// A line ended by `"\r\n"` is the first of the lines of a text.
pub proof fn lemma_lines_crlf(a: Seq<char>, rest: Seq<char>)
    requires
        no_line_feed(a),
    ensures
        lines(a + "\r\n"@ + rest) == seq![a] + lines(rest),
{
    reveal_strlit("\r\n");
    let s = a + "\r\n"@ + rest;
    let n = (a.len() + 1) as int;
    assert forall|j: int| 0 <= j < n implies !in_class(#[trigger] s[j], CharClass::Exactly('\n')) by {
        if j < a.len() {
            assert(s[j] == a[j]);
        } else {
            assert(s[j] == '\r');
        }
    }
    assert(s[n] == '\n');
    lemma_first_in_at(s, CharClass::Exactly('\n'), n);
    assert(s.take(n) =~= a.push('\r'));
    assert(s.take(n).drop_last() =~= a);
    assert(s.skip(n + 1) =~= rest);
}

/// A word followed by a space is the first word of a text.
pub proof fn lemma_words_cons(w: Seq<char>, rest: Seq<char>)
    requires
        w.len() > 0,
        no_ws(w),
    ensures
        words(w + seq![' '] + rest) == seq![w] + words(rest),
{
    let s = w + seq![' '] + rest;
    assert forall|j: int| 0 <= j < w.len() implies !in_class(#[trigger] s[j], CharClass::Space) by {
        assert(s[j] == w[j]);
    }
    assert(s[w.len() as int] == ' ');
    lemma_first_in_at(s, CharClass::Space, w.len() as int);
    assert(s.take(w.len() as int) =~= w);
    let t = s.skip(w.len() as int);
    assert(t[0] == ' ');
    assert(t.drop_first() =~= rest);
    assert(!is_ws(s[0]));
    assert(words(s) == seq![s.take(w.len() as int)] + words(t));
    assert(is_ws(t[0]));
    assert(words(t) == words(t.drop_first()));
}

/// Each word of a text is non-empty and holds no whitespace.
pub proof fn lemma_words_no_ws(s: Seq<char>)
    ensures
        forall|k: int| 0 <= k < words(s).len() ==> (#[trigger] words(s)[k]).len() > 0 && no_ws(
            words(s)[k],
        ),
    decreases s.len(),
{
    if s.len() == 0 {
    } else if is_ws(s[0]) {
        lemma_words_no_ws(s.drop_first());
        assert(words(s) == words(s.drop_first()));
    } else {
        let n = first_in(s, CharClass::Space);
        lemma_first_in(s, CharClass::Space);
        lemma_words_no_ws(s.skip(n as int));
        let w = s.take(n as int);
        assert(words(s) == seq![w] + words(s.skip(n as int)));
        assert(in_class(s[0], CharClass::NonSpace));
        assert(n > 0);
        assert forall|k: int| 0 <= k < words(s).len() implies (#[trigger] words(s)[k]).len() > 0
            && no_ws(words(s)[k]) by {
            if k == 0 {
                assert(words(s)[0] == w);
                assert forall|i: int| 0 <= i < w.len() implies !is_ws(#[trigger] w[i]) by {
                    assert(!in_class(s[i], CharClass::Space));
                }
            } else {
                assert(words(s)[k] == words(s.skip(n as int))[k - 1]);
            }
        }
    }
}

/// Words without whitespace joined by spaces hold no line feed.
pub proof fn lemma_join_no_line_feed(ws: Seq<Seq<char>>)
    requires
        forall|k: int| 0 <= k < ws.len() ==> no_ws(#[trigger] ws[k]),
    ensures
        no_line_feed(join_spaced(ws)),
    decreases ws.len(),
{
    if ws.len() == 1 {
        assert(no_ws(ws[0]));
    } else if ws.len() > 1 {
        lemma_join_no_line_feed(ws.drop_last());
        let j = join_spaced(ws);
        let a = join_spaced(ws.drop_last());
        assert(no_ws(ws.last()));
        assert(j == a + seq![' '] + ws.last());
        assert forall|i: int| 0 <= i < j.len() implies #[trigger] j[i] != '\n' by {
            if i < a.len() {
                assert(j[i] == a[i]);
            } else if i > a.len() {
                assert(j[i] == ws.last()[i - a.len() - 1]);
            }
        }
    }
}


/// No character of `s` is `c`.
pub open spec fn lacks(s: Seq<char>, c: char) -> bool {
    forall|i: int| 0 <= i < s.len() ==> #[trigger] s[i] != c
}

/// Text that trimming leaves as it is: empty, or not starting or ending in whitespace.
pub open spec fn is_trimmed(s: Seq<char>) -> bool {
    s.len() == 0 || (!is_ws(s[0]) && !is_ws(s.last()))
}

/// A space in front of trimmed text is trimmed away.
pub proof fn lemma_trim_space_before(x: Seq<char>)
    requires
        is_trimmed(x),
    ensures
        trim(" "@ + x) == x,
{
    reveal_strlit(" ");
    let s = " "@ + x;
    assert(is_ws(s[0]));
    if x.len() > 0 {
        assert(s[1] == x[0]);
    }
    lemma_first_in_at(s, CharClass::NonSpace, 1);
    assert(s.skip(1) =~= x);
    if x.len() > 0 {
        assert(trim_end(x) == x);
    }
}

/// In `name + ": " + x`, where `name` holds no `c` (the colon), the text
/// after the first colon is `" " + x`.
pub proof fn lemma_after_name(name: Seq<char>, x: Seq<char>)
    requires
        lacks(name, ':'),
    ensures
        after_first(name + ": "@ + x, ':') == " "@ + x,
{
    reveal_strlit(": ");
    reveal_strlit(" ");
    let s = name + ": "@ + x;
    assert forall|j: int| 0 <= j < name.len() implies !in_class(#[trigger] s[j], CharClass::Exactly(':')) by {
        assert(s[j] == name[j]);
    }
    assert(s[name.len() as int] == ':');
    lemma_first_in_at(s, CharClass::Exactly(':'), name.len() as int);
    assert(s.skip((name.len() + 1) as int) =~= " "@ + x);
}

/// The text between the first and second colon of `" " + x`, where `x`
/// holds no colon, is all of it.
pub proof fn lemma_no_second_colon(x: Seq<char>)
    requires
        lacks(x, ':'),
    ensures
        (" "@ + x).take(first_in(" "@ + x, CharClass::Exactly(':')) as int) == " "@ + x,
{
    reveal_strlit(" ");
    let s = " "@ + x;
    assert forall|j: int| 0 <= j < s.len() implies !in_class(#[trigger] s[j], CharClass::Exactly(':')) by {
        if j > 0 {
            assert(s[j] == x[j - 1]);
        }
    }
    lemma_first_in_at(s, CharClass::Exactly(':'), s.len() as int);
    assert(s.take(s.len() as int) =~= s);
}


/// No line of a text holds a line feed.
pub proof fn lemma_lines_lack_line_feed(s: Seq<char>)
    ensures
        forall|i: int| 0 <= i < lines(s).len() ==> lacks(#[trigger] lines(s)[i], '\n'),
    decreases s.len(),
{
    if s.len() > 0 {
        let n = first_in(s, CharClass::Exactly('\n'));
        lemma_first_in(s, CharClass::Exactly('\n'));
        if n >= s.len() {
            assert(lines(s) == seq![s]);
            assert forall|j: int| 0 <= j < s.len() implies #[trigger] s[j] != '\n' by {
                assert(!in_class(s[j], CharClass::Exactly('\n')));
            }
        } else {
            lemma_lines_lack_line_feed(s.skip((n + 1) as int));
            let first = strip_cr(s.take(n as int));
            assert forall|j: int| 0 <= j < first.len() implies #[trigger] first[j] != '\n' by {
                assert(first[j] == s[j]);
                assert(!in_class(s[j], CharClass::Exactly('\n')));
            }
            assert forall|i: int| 0 <= i < lines(s).len() implies lacks(#[trigger] lines(s)[i], '\n') by {
                if i > 0 {
                    assert(lines(s)[i] == lines(s.skip((n + 1) as int))[i - 1]);
                }
            }
        }
    }
}

/// Trimming the end keeps a prefix that ends, if at all, in no whitespace.
pub proof fn lemma_trim_end_prefix(y: Seq<char>)
    ensures
        trim_end(y).len() <= y.len(),
        trim_end(y) == y.take(trim_end(y).len() as int),
        trim_end(y).len() == 0 || !is_ws(trim_end(y).last()),
    decreases y.len(),
{
    if y.len() > 0 && is_ws(y.last()) {
        lemma_trim_end_prefix(y.drop_last());
        assert(y.drop_last().take(trim_end(y).len() as int) =~= y.take(trim_end(y).len() as int));
    } else {
        assert(y.take(y.len() as int) =~= y);
    }
}

/// Trimmed text is trimmed, and holds no character that the text lacks.
pub proof fn lemma_trim_props(x: Seq<char>, c: char)
    ensures
        is_trimmed(trim(x)),
        lacks(x, c) ==> lacks(trim(x), c),
{
    let k = first_in(x, CharClass::NonSpace);
    lemma_first_in(x, CharClass::NonSpace);
    let y = x.skip(k as int);
    lemma_trim_end_prefix(y);
    let t = trim(x);
    assert forall|i: int| 0 <= i < t.len() implies #[trigger] t[i] == x[k + i] by {
        assert(t[i] == y.take(t.len() as int)[i]);
    }
    if t.len() > 0 {
        assert(t[0] == x[k as int]);
        assert(in_class(x[k as int], CharClass::NonSpace));
    }
    if lacks(x, c) {
        assert forall|i: int| 0 <= i < t.len() implies #[trigger] t[i] != c by {
            assert(t[i] == x[k + i]);
        }
    }
}

/// The text after the first `c` of a line, and the field after it, hold
/// no character that the line lacks; the field holds no `c`.
pub proof fn lemma_fields_lack(line: Seq<char>, c: char, d: char)
    ensures
        lacks(line, d) ==> lacks(after_first(line, c), d),
        lacks(line, d) ==> lacks(second_field(line, c), d),
        lacks(second_field(line, c), c),
{
    let n = first_in(line, CharClass::Exactly(c));
    let rest = after_first(line, c);
    if n < line.len() {
        assert forall|i: int| 0 <= i < rest.len() implies #[trigger] rest[i] == line[n + 1 + i] by {}
    }
    let m = first_in(rest, CharClass::Exactly(c));
    lemma_first_in(rest, CharClass::Exactly(c));
    let f = second_field(line, c);
    assert forall|i: int| 0 <= i < f.len() implies #[trigger] f[i] == rest[i] by {}
    assert forall|i: int| 0 <= i < f.len() implies #[trigger] f[i] != c by {
        assert(!in_class(rest[i], CharClass::Exactly(c)));
    }
}

/// Words joined by single spaces, split again, give the words back.
pub proof fn lemma_join_front(ws: Seq<Seq<char>>)
    requires
        ws.len() >= 2,
    ensures
        join_spaced(ws) == ws[0] + seq![' '] + join_spaced(ws.drop_first()),
    decreases ws.len(),
{
    if ws.len() == 2 {
        assert(ws.drop_last() =~= seq![ws[0]]);
        assert(ws.drop_first() =~= seq![ws[1]]);
        assert(join_spaced(ws.drop_first()) == ws[1]);
        assert(join_spaced(ws.drop_last()) == ws[0]);
    } else {
        lemma_join_front(ws.drop_last());
        assert(ws.drop_last().drop_first() =~= ws.drop_first().drop_last());
        assert(ws.drop_first().last() == ws.last());
        assert(join_spaced(ws.drop_first()) == join_spaced(ws.drop_first().drop_last()) + seq![' ']
            + ws.drop_first().last());
    }
}

/// Splitting words joined by single spaces gives them back.
pub proof fn lemma_words_of_join(ws: Seq<Seq<char>>)
    requires
        ws.len() >= 1,
        forall|k: int| 0 <= k < ws.len() ==> (#[trigger] ws[k]).len() > 0 && no_ws(ws[k]),
    ensures
        words(join_spaced(ws)) == ws,
        join_spaced(ws).len() > 0,
    decreases ws.len(),
{
    if ws.len() == 1 {
        let w = ws[0];
        assert(w.len() > 0 && no_ws(w));
        lemma_words_cons(w, Seq::empty());
        assert(w + seq![' '] + Seq::<char>::empty() =~= w.push(' '));
        assert forall|j: int| 0 <= j < w.len() implies !in_class(#[trigger] w[j], CharClass::Space) by {}
        lemma_first_in_at(w, CharClass::Space, w.len() as int);
        assert(w.take(w.len() as int) =~= w);
        assert(w.skip(w.len() as int) =~= Seq::<char>::empty());
        assert(words(w) == seq![w.take(w.len() as int)] + words(w.skip(w.len() as int)));
        assert(words(w) =~= seq![w]);
    } else {
        lemma_join_front(ws);
        lemma_words_of_join(ws.drop_first());
        assert(ws[0].len() > 0 && no_ws(ws[0]));
        lemma_words_cons(ws[0], join_spaced(ws.drop_first()));
        assert(ws =~= seq![ws[0]] + ws.drop_first());
    }
}

/// The first word of a text that starts with a prefix holding no
/// whitespace starts with that prefix.
pub proof fn lemma_first_word_prefix(s: Seq<char>, p: Seq<char>)
    requires
        p.len() > 0,
        no_ws(p),
        p.is_prefix_of(s),
    ensures
        words(s).len() >= 1,
        p.is_prefix_of(words(s)[0]),
{
    assert(s[0] == p[0]);
    let n = first_in(s, CharClass::Space);
    lemma_first_in(s, CharClass::Space);
    if n < p.len() {
        assert(s[n as int] == p[n as int]);
    }
    assert(words(s) == seq![s.take(n as int)] + words(s.skip(n as int)));
    assert(s.take(n as int).subrange(0, p.len() as int) =~= p);
}

/// The lines of a text that is empty or ends in a line feed, followed by
/// more text, are its own lines followed by those of the rest.
pub proof fn lemma_lines_append(a: Seq<char>, b: Seq<char>)
    requires
        a.len() == 0 || a.last() == '\n',
    ensures
        lines(a + b) == lines(a) + lines(b),
    decreases a.len(),
{
    if a.len() == 0 {
        assert(a + b =~= b);
        assert(lines(a) =~= Seq::<Seq<char>>::empty());
        assert(lines(a) + lines(b) =~= lines(b));
    } else {
        let k = CharClass::Exactly('\n');
        let s = a + b;
        let n = first_in(a, k);
        lemma_first_in(a, k);
        if n >= a.len() {
            assert(in_class(a[a.len() - 1], k));
        }
        assert forall|j: int| 0 <= j < n implies !in_class(#[trigger] s[j], k) by {
            assert(s[j] == a[j]);
        }
        assert(s[n as int] == a[n as int]);
        lemma_first_in_at(s, k, n as int);
        let a2 = a.skip((n + 1) as int);
        if a2.len() > 0 {
            assert(a2.last() == a.last());
        }
        lemma_lines_append(a2, b);
        assert(s.take(n as int) =~= a.take(n as int));
        assert(s.skip((n + 1) as int) =~= a2 + b);
        assert(lines(s) == seq![strip_cr(a.take(n as int))] + lines(a2 + b));
        assert(lines(a) == seq![strip_cr(a.take(n as int))] + lines(a2));
        assert(lines(s) =~= lines(a) + lines(b));
    }
}

/// A line without line feeds, ended by one, is one line.
pub proof fn lemma_lines_one(l: Seq<char>)
    requires
        lacks(l, '\n'),
    ensures
        lines(l + "\n"@) == seq![strip_cr(l)],
{
    reveal_strlit("\n");
    let k = CharClass::Exactly('\n');
    let s = l + "\n"@;
    assert forall|j: int| 0 <= j < l.len() implies !in_class(#[trigger] s[j], k) by {
        assert(s[j] == l[j]);
    }
    assert(s[l.len() as int] == '\n');
    lemma_first_in_at(s, k, l.len() as int);
    assert(s.take(l.len() as int) =~= l);
    assert(s.skip((l.len() + 1) as int) =~= Seq::<char>::empty());
    assert(lines(s.skip((l.len() + 1) as int)) =~= Seq::<Seq<char>>::empty());
    assert(lines(s) =~= seq![strip_cr(l)]);
}

/// Dropping a final `'\r'` keeps the start of a line.
pub proof fn lemma_strip_cr_prefix(p: Seq<char>, l: Seq<char>)
    ensures
        p.is_prefix_of(strip_cr(l)) ==> p.is_prefix_of(l),
{
    if p.is_prefix_of(strip_cr(l)) {
        assert forall|i: int| 0 <= i < p.len() implies #[trigger] p[i] == l[i] by {
            assert(strip_cr(l)[i] == l[i]);
        }
    }
}

/// The text of `x` before its first `c`, or all of `x` when it holds none.
pub open spec fn before_first(x: Seq<char>, c: char) -> Seq<char> {
    x.take(first_in(x, CharClass::Exactly(c)) as int)
}

/// Trimming ignores a space in front.
pub proof fn lemma_trim_after_space(y: Seq<char>)
    ensures
        trim(" "@ + y) == trim(y),
{
    reveal_strlit(" ");
    let s = " "@ + y;
    let k = CharClass::NonSpace;
    let j = first_in(y, k) as int;
    lemma_first_in(y, k);
    assert forall|i: int| 0 <= i < j + 1 implies !in_class(#[trigger] s[i], k) by {
        if i > 0 {
            assert(s[i] == y[i - 1]);
        }
    }
    if j < y.len() {
        assert(s[j + 1] == y[j]);
    }
    lemma_first_in_at(s, k, j + 1);
    assert(s.skip(j + 1) =~= y.skip(j));
}

/// In `name + ": " + x`, where `name` holds no colon, the text between the
/// first and the second colon is `" "` followed by `x` up to its first colon.
pub proof fn lemma_second_field_after_name(name: Seq<char>, x: Seq<char>)
    requires
        lacks(name, ':'),
    ensures
        trim(second_field(name + ": "@ + x, ':')) == trim(before_first(x, ':')),
{
    reveal_strlit(" ");
    lemma_after_name(name, x);
    let s = " "@ + x;
    let k = CharClass::Exactly(':');
    let j = first_in(x, k) as int;
    lemma_first_in(x, k);
    assert forall|i: int| 0 <= i < j + 1 implies !in_class(#[trigger] s[i], k) by {
        if i > 0 {
            assert(s[i] == x[i - 1]);
        }
    }
    if j < x.len() {
        assert(s[j + 1] == x[j]);
    }
    lemma_first_in_at(s, k, j + 1);
    assert(s.take(j + 1) =~= " "@ + before_first(x, ':'));
    lemma_trim_after_space(before_first(x, ':'));
}

} // verus!
