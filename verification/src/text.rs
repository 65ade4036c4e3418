//! Character-level string helpers with exact specifications.

use vstd::prelude::*;
use vstd::string::*;
use vstd::utf8::{
    char_is_scalar, char_u32_cast, decode_first_scalar, encode_scalar, encode_utf8,
    encode_utf8_first_scalar, is_scalar, length_of_first_scalar,
};

verus! {

/// `String::push` appends one character at the end.
pub assume_specification[ String::push ](s: &mut String, ch: char)
    ensures
        final(s)@ == old(s)@.push(ch),
;

/// `char::from_u32` gives the character of a Unicode scalar value, and
/// nothing for any other value (a surrogate or a value past `0x10FFFF`).
pub assume_specification[ char::from_u32 ](i: u32) -> (r: Option<char>)
    ensures
        is_scalar(i) ==> r == Some(i as char),
        !is_scalar(i) ==> r is None,
;

/// The characters of a string slice, decoded from its UTF-8 bytes.
pub fn chars_of(s: &str) -> (v: Vec<char>)
    ensures
        v@ == s@,
{
    let b = s.as_bytes();
    let n = b.len();
    assert(b@ == encode_utf8(s@));
    let mut v: Vec<char> = Vec::new();
    let mut p: usize = 0;
    let ghost mut k: int = 0;
    assert(b@.subrange(0, n as int) =~= b@);
    assert(s@.skip(0) =~= s@);
    assert(s@.take(0) =~= Seq::<char>::empty());
    while p < n
        invariant
            n == b@.len(),
            0 <= k <= s@.len(),
            p <= n,
            b@.subrange(p as int, n as int) == encode_utf8(s@.skip(k)),
            v@ == s@.take(k),
        decreases n - p,
    {
        let ghost cs = s@.skip(k);
        let ghost rest = b@.subrange(p as int, n as int);
        proof {
            if cs.len() == 0 {
                assert(encode_utf8(cs) =~= Seq::<u8>::empty());
            }
            encode_utf8_first_scalar(cs);
            char_is_scalar(cs[0]);
            char_u32_cast(cs[0], cs[0] as u32);
            assert(rest[0] == b@[p as int]);
        }
        let b0 = b[p];
        let (cp, w): (u32, usize) = if b0 <= 0x7f {
            ((b0 & 0x7F) as u32, 1)
        } else if 0xc0 <= b0 && b0 <= 0xdf {
            assert(rest[1] == b@[p + 1]);
            let b1 = b[p + 1];
            ((((b0 & 0x1F) as u32) << 6) | ((b1 & 0x3F) as u32), 2)
        } else if 0xe0 <= b0 && b0 <= 0xef {
            assert(rest[1] == b@[p + 1]);
            assert(rest[2] == b@[p + 2]);
            let b1 = b[p + 1];
            let b2 = b[p + 2];
            ((((b0 & 0x0F) as u32) << 12) | (((b1 & 0x3F) as u32) << 6) | ((b2 & 0x3F) as u32), 3)
        } else {
            assert(rest[1] == b@[p + 1]);
            assert(rest[2] == b@[p + 2]);
            assert(rest[3] == b@[p + 3]);
            let b1 = b[p + 1];
            let b2 = b[p + 2];
            let b3 = b[p + 3];
            (
                (((b0 & 0x07) as u32) << 18) | (((b1 & 0x3F) as u32) << 12) | (((b2 & 0x3F) as u32)
                    << 6) | ((b3 & 0x3F) as u32),
                4,
            )
        };
        assert(cp == decode_first_scalar(rest));
        assert(w == length_of_first_scalar(rest));
        let c = match char::from_u32(cp) {
            Some(c) => c,
            None => {
                return v;
            },
        };
        assert(c == cs[0]);
        let ghost before = v@;
        v.push(c);
        p = p + w;
        proof {
            assert(encode_utf8(cs) == encode_scalar(cs[0] as u32) + encode_utf8(cs.drop_first()));
            assert(rest.subrange(w as int, rest.len() as int) =~= encode_utf8(cs.drop_first()));
            assert(b@.subrange(p as int, n as int) =~= rest.subrange(w as int, rest.len() as int));
            assert(cs.drop_first() =~= s@.skip(k + 1));
            assert(s@.take(k + 1) =~= before.push(cs[0]));
            k = k + 1;
        }
    }
    proof {
        let cs = s@.skip(k);
        if cs.len() > 0 {
            encode_utf8_first_scalar(cs);
            assert(encode_utf8(cs) =~= Seq::<u8>::empty());
        }
        assert(s@.take(k) =~= s@);
    }
    v
}

/// A list of strings, as character sequences.
pub open spec fn strings_view(v: Seq<String>) -> Seq<Seq<char>> {
    v.map_values(|s: String| s@)
}

/// Builds a string from a sequence of characters.
pub fn string_from_chars(cs: &[char]) -> (s: String)
    ensures
        s@ == cs@,
{
    let mut s = String::new();
    let mut i: usize = 0;
    while i < cs.len()
        invariant
            i <= cs@.len(),
            s@ == cs@.subrange(0, i as int),
        decreases cs@.len() - i,
    {
        s.push(cs[i]);
        i = i + 1;
        assert(s@ =~= cs@.subrange(0, i as int));
    }
    assert(cs@.subrange(0, cs@.len() as int) =~= cs@);
    s
}

} // verus!

verus! {

/// Whether two character sequences are equal, decided element by element.
pub fn chars_equal(a: &[char], b: &[char]) -> (r: bool)
    ensures
        r == (a@ == b@),
{
    if a.len() != b.len() {
        return false;
    }
    let mut i: usize = 0;
    while i < a.len()
        invariant
            a@.len() == b@.len(),
            i <= a@.len(),
            forall|j: int| 0 <= j < i ==> a@[j] == b@[j],
        decreases a@.len() - i,
    {
        if a[i] != b[i] {
            return false;
        }
        i = i + 1;
    }
    assert(a@ =~= b@);
    true
}

/// Whether two string slices hold the same characters.
pub fn str_equal(a: &str, b: &str) -> (r: bool)
    ensures
        r == (a@ == b@),
{
    let va = chars_of(a);
    let vb = chars_of(b);
    chars_equal(va.as_slice(), vb.as_slice())
}

/// `p` occurs in `s` at position `i`.
pub open spec fn occurs_at(s: Seq<char>, p: Seq<char>, i: int) -> bool {
    0 <= i && i + p.len() <= s.len() && s.subrange(i, i + p.len()) == p
}

/// `p` occurs somewhere in `s` (the empty pattern occurs everywhere).
pub open spec fn contains_seq(s: Seq<char>, p: Seq<char>) -> bool {
    exists|i: int| occurs_at(s, p, i)
}

/// Whether `p` occurs in `s` at position `i`, decided character by character.
fn matches_at(s: &[char], p: &[char], i: usize) -> (r: bool)
    requires
        i + p@.len() <= s@.len(),
    ensures
        r == occurs_at(s@, p@, i as int),
{
    let mut j: usize = 0;
    let n = s.len();
    while j < p.len()
        invariant
            n == s@.len(),
            i + p@.len() <= s@.len(),
            j <= p@.len(),
            forall|k: int| 0 <= k < j ==> s@[i + k] == p@[k],
        decreases p@.len() - j,
    {
        if s[i + j] != p[j] {
            assert(s@.subrange(i as int, i + p@.len())[j as int] != p@[j as int]);
            return false;
        }
        j = j + 1;
    }
    assert(s@.subrange(i as int, i + p@.len()) =~= p@);
    true
}

/// Whether the character sequence `p` occurs in `s`.
pub fn chars_contain(s: &[char], p: &[char]) -> (r: bool)
    ensures
        r == contains_seq(s@, p@),
{
    if p.len() > s.len() {
        assert forall|i: int| !occurs_at(s@, p@, i) by {}
        return false;
    }
    if p.len() == 0 {
        assert(s@.subrange(0, 0) =~= p@);
        assert(occurs_at(s@, p@, 0));
        return true;
    }
    let last = s.len() - p.len();
    let mut i: usize = 0;
    while i <= last
        invariant
            p@.len() <= s@.len(),
            last == s@.len() - p@.len(),
            p@.len() > 0,
            s@.len() == s.len(),
            i <= last + 1,
            forall|k: int| 0 <= k < i ==> !occurs_at(s@, p@, k),
        decreases last + 1 - i,
    {
        if matches_at(s, p, i) {
            return true;
        }
        i = i + 1;
    }
    assert forall|k: int| !occurs_at(s@, p@, k) by {
        if 0 <= k < i {
        }
    }
    false
}

/// Whether the string slice `p` occurs in `s`.
pub fn str_contains(s: &str, p: &str) -> (r: bool)
    ensures
        r == contains_seq(s@, p@),
{
    let vs = chars_of(s);
    let vp = chars_of(p);
    chars_contain(vs.as_slice(), vp.as_slice())
}

/// Whether `s` begins with `p`.
pub fn str_starts_with(s: &str, p: &str) -> (r: bool)
    ensures
        r == p@.is_prefix_of(s@),
{
    let vs = chars_of(s);
    let vp = chars_of(p);
    if vp.len() > vs.len() {
        return false;
    }
    let r = matches_at(vs.as_slice(), vp.as_slice(), 0);
    assert(r == (vs@.subrange(0, vp@.len() as int) == vp@));
    r
}

} // verus!

verus! {

/// The ASCII digit character for a value below ten.
pub open spec fn digit_char(d: nat) -> char {
    if d == 0 { '0' }
    else if d == 1 { '1' }
    else if d == 2 { '2' }
    else if d == 3 { '3' }
    else if d == 4 { '4' }
    else if d == 5 { '5' }
    else if d == 6 { '6' }
    else if d == 7 { '7' }
    else if d == 8 { '8' }
    else { '9' }
}

/// Whether `c` is one of `0` to `9`.
pub open spec fn is_ascii_digit(c: char) -> bool {
    '0' <= c && c <= '9'
}

/// The value of an ASCII digit character.
pub open spec fn digit_value(c: char) -> nat {
    (c as int - '0' as int) as nat
}

/// The decimal representation of `n`, without sign or leading zeros.
pub open spec fn decimal(n: nat) -> Seq<char>
    decreases n,
{
    if n < 10 {
        seq![digit_char(n)]
    } else {
        decimal(n / 10).push(digit_char(n % 10))
    }
}

proof fn lemma_digit_char(d: nat)
    requires
        d < 10,
    ensures
        is_ascii_digit(digit_char(d)),
        digit_value(digit_char(d)) == d,
{
}

/// The decimal representation holds digits only and is never empty.
pub proof fn lemma_decimal_digits(n: nat)
    ensures
        decimal(n).len() >= 1,
        forall|i: int| 0 <= i < decimal(n).len() ==> is_ascii_digit(#[trigger] decimal(n)[i]),
    decreases n,
{
    if n < 10 {
        lemma_digit_char(n);
    } else {
        lemma_decimal_digits(n / 10);
        lemma_digit_char(n % 10);
    }
}

/// Appends the decimal representation of `n` to `out`.
pub fn push_decimal(out: &mut String, n: u64)
    ensures
        final(out)@ == old(out)@ + decimal(n as nat),
    decreases n,
{
    if n >= 10 {
        push_decimal(out, n / 10);
    }
    let d = n % 10;
    let c = if d == 0 { '0' }
        else if d == 1 { '1' }
        else if d == 2 { '2' }
        else if d == 3 { '3' }
        else if d == 4 { '4' }
        else if d == 5 { '5' }
        else if d == 6 { '6' }
        else if d == 7 { '7' }
        else if d == 8 { '8' }
        else { '9' };
    out.push(c);
    assert(c == digit_char(d as nat));
    if n >= 10 {
        assert(final(out)@ =~= old(out)@ + decimal(n as nat));
    } else {
        assert(final(out)@ =~= old(out)@ + decimal(n as nat));
    }
}

/// Why a text is not a number of the target integer type.
#[derive(Clone, Copy, Debug, PartialEq, Eq, Structural)]
pub enum IntErrorKind {
    /// The text is empty.
    Empty,
    /// The text holds a character that is not a digit.
    InvalidDigit,
    /// The value does not fit.
    PosOverflow,
}

/// Reads the digits of `d` one by one onto the value `acc`: the first
/// character that is no digit, or that would carry the value past
/// `u32::MAX`, decides the error.
pub open spec fn scan_u32(d: Seq<char>, acc: nat) -> Result<u32, IntErrorKind>
    decreases d.len(),
{
    if d.len() == 0 {
        Ok(acc as u32)
    } else if !is_ascii_digit(d[0]) {
        Err(IntErrorKind::InvalidDigit)
    } else if acc * 10 + digit_value(d[0]) > u32::MAX {
        Err(IntErrorKind::PosOverflow)
    } else {
        scan_u32(d.drop_first(), acc * 10 + digit_value(d[0]))
    }
}

/// Decimal reading of an unsigned 32-bit integer as `str::parse::<u32>` does
/// it: an optional leading `+`, then one or more ASCII digits.
pub open spec fn parse_u32_spec(s: Seq<char>) -> Result<u32, IntErrorKind> {
    if s.len() == 0 {
        Err(IntErrorKind::Empty)
    } else if (s[0] == '+' || s[0] == '-') && s.len() == 1 {
        Err(IntErrorKind::InvalidDigit)
    } else if s[0] == '+' {
        scan_u32(s.drop_first(), 0)
    } else {
        scan_u32(s, 0)
    }
}

/// Reads `cs[start..end]` as an unsigned 32-bit decimal number.
pub fn parse_u32_chars(cs: &[char], start: usize, end: usize) -> (r: Result<u32, IntErrorKind>)
    requires
        start <= end <= cs@.len(),
    ensures
        r == parse_u32_spec(cs@.subrange(start as int, end as int)),
{
    let ghost s = cs@.subrange(start as int, end as int);
    if start == end {
        return Err(IntErrorKind::Empty);
    }
    let first = cs[start];
    if (first == '+' || first == '-') && end - start == 1 {
        return Err(IntErrorKind::InvalidDigit);
    }
    let mut i = if first == '+' { start + 1 } else { start };
    assert(s[0] == first);
    let ghost d0 = cs@.subrange(i as int, end as int);
    assert(parse_u32_spec(s) == scan_u32(d0, 0)) by {
        if first == '+' {
            assert(s.drop_first() =~= d0);
        } else {
            assert(s =~= d0);
        }
    }
    let mut acc: u32 = 0;
    while i < end
        invariant
            start <= i <= end <= cs@.len(),
            parse_u32_spec(cs@.subrange(start as int, end as int)) == scan_u32(d0, 0),
            scan_u32(d0, 0) == scan_u32(cs@.subrange(i as int, end as int), acc as nat),
        decreases end - i,
    {
        let ghost rest = cs@.subrange(i as int, end as int);
        let c = cs[i];
        assert(rest[0] == c);
        if !('0' <= c && c <= '9') {
            return Err(IntErrorKind::InvalidDigit);
        }
        let dv = (c as u32) - ('0' as u32);
        assert(dv as nat == digit_value(c));
        if acc > 429496729 || (acc == 429496729 && dv > 5) {
            return Err(IntErrorKind::PosOverflow);
        }
        acc = acc * 10 + dv;
        i = i + 1;
        assert(rest.drop_first() =~= cs@.subrange(i as int, end as int));
    }
    assert(cs@.subrange(i as int, end as int).len() == 0);
    Ok(acc)
}

} // verus!

verus! {

/// The pieces of `s` between occurrences of `c`, as `str::split` with a
/// character pattern yields them: one more piece than there are
/// occurrences, empty pieces included.
pub open spec fn split_char(s: Seq<char>, c: char) -> Seq<Seq<char>>
    decreases s.len(),
{
    if s.len() == 0 {
        seq![Seq::<char>::empty()]
    } else {
        let prev = split_char(s.drop_last(), c);
        if s.last() == c {
            prev.push(Seq::<char>::empty())
        } else {
            prev.update(prev.len() - 1, prev.last().push(s.last()))
        }
    }
}

pub proof fn lemma_split_char_nonempty(s: Seq<char>, c: char)
    ensures
        split_char(s, c).len() >= 1,
    decreases s.len(),
{
    if s.len() > 0 {
        lemma_split_char_nonempty(s.drop_last(), c);
    }
}

/// The positions of the pieces of `cs[start..]` split at `c`: piece `i` is
/// `cs[r[i].0 .. r[i].1]`.
pub fn split_ranges(cs: &[char], start: usize, c: char) -> (r: Vec<(usize, usize)>)
    requires
        start <= cs@.len(),
    ensures
        r@.len() == split_char(cs@.subrange(start as int, cs@.len() as int), c).len(),
        forall|i: int|
            0 <= i < r@.len() ==> start <= (#[trigger] r@[i]).0 <= r@[i].1 <= cs@.len()
                && cs@.subrange(r@[i].0 as int, r@[i].1 as int) == split_char(
                cs@.subrange(start as int, cs@.len() as int),
                c,
            )[i],
{
    let mut r: Vec<(usize, usize)> = Vec::new();
    let mut piece_start = start;
    let mut i = start;
    proof {
        assert(cs@.subrange(start as int, start as int) =~= Seq::<char>::empty());
    }
    while i < cs.len()
        invariant
            start <= piece_start <= i <= cs@.len(),
            r@.len() + 1 == split_char(cs@.subrange(start as int, i as int), c).len(),
            forall|k: int|
                0 <= k < r@.len() ==> start <= (#[trigger] r@[k]).0 <= r@[k].1 <= cs@.len()
                    && cs@.subrange(r@[k].0 as int, r@[k].1 as int) == split_char(
                    cs@.subrange(start as int, i as int),
                    c,
                )[k],
            cs@.subrange(piece_start as int, i as int) == split_char(
                cs@.subrange(start as int, i as int),
                c,
            ).last(),
        decreases cs@.len() - i,
    {
        let ghost prefix = cs@.subrange(start as int, i as int);
        let ghost next = cs@.subrange(start as int, i + 1);
        proof {
            assert(next.drop_last() =~= prefix);
            assert(next.last() == cs@[i as int]);
            lemma_split_char_nonempty(prefix, c);
        }
        if cs[i] == c {
            r.push((piece_start, i));
            piece_start = i + 1;
            i = i + 1;
            assert(cs@.subrange(piece_start as int, i as int) =~= Seq::<char>::empty());
        } else {
            i = i + 1;
            assert(cs@.subrange(piece_start as int, i as int) =~= cs@.subrange(
                piece_start as int,
                i - 1,
            ).push(cs@[i - 1]));
        }
    }
    r.push((piece_start, i));
    proof {
        lemma_split_char_nonempty(cs@.subrange(start as int, i as int), c);
    }
    r
}

/// `s` without its leading run of `c`.
pub open spec fn skip_leading(s: Seq<char>, c: char) -> Seq<char>
    decreases s.len(),
{
    if s.len() > 0 && s[0] == c {
        skip_leading(s.drop_first(), c)
    } else {
        s
    }
}

/// The position of the first character of `cs[start..]` that is not `c`.
pub fn skip_leading_index(cs: &[char], start: usize, c: char) -> (k: usize)
    requires
        start <= cs@.len(),
    ensures
        start <= k <= cs@.len(),
        cs@.subrange(k as int, cs@.len() as int) == skip_leading(
            cs@.subrange(start as int, cs@.len() as int),
            c,
        ),
{
    let mut k = start;
    while k < cs.len() && cs[k] == c
        invariant
            start <= k <= cs@.len(),
            skip_leading(cs@.subrange(k as int, cs@.len() as int), c) == skip_leading(
                cs@.subrange(start as int, cs@.len() as int),
                c,
            ),
        decreases cs@.len() - k,
    {
        assert(cs@.subrange(k as int, cs@.len() as int).drop_first() =~= cs@.subrange(
            k + 1,
            cs@.len() as int,
        ));
        k = k + 1;
    }
    k
}

} // verus!

verus! {

/// Reading one more digit onto a successful scan.
proof fn lemma_scan_push(d: Seq<char>, x: char, acc: nat, v: u32)
    requires
        scan_u32(d, acc) == Ok::<u32, IntErrorKind>(v),
        acc <= u32::MAX,
        is_ascii_digit(x),
        v * 10 + digit_value(x) <= u32::MAX,
    ensures
        scan_u32(d.push(x), acc) == Ok::<u32, IntErrorKind>((v * 10 + digit_value(x)) as u32),
    decreases d.len(),
{
    if d.len() == 0 {
        assert(acc == v);
        let e = d.push(x);
        assert(e.drop_first() =~= Seq::<char>::empty());
        assert(e[0] == x);
        assert(scan_u32(e.drop_first(), acc * 10 + digit_value(x)) == Ok::<u32, IntErrorKind>(
            (acc * 10 + digit_value(x)) as u32,
        ));
    } else {
        assert(d.push(x).drop_first() =~= d.drop_first().push(x));
        assert(d.push(x)[0] == d[0]);
        lemma_scan_push(d.drop_first(), x, acc * 10 + digit_value(d[0]), v);
    }
}

/// The scan of a decimal representation gives back the number.
pub proof fn lemma_scan_decimal(n: nat)
    requires
        n <= u32::MAX,
    ensures
        scan_u32(decimal(n), 0) == Ok::<u32, IntErrorKind>(n as u32),
    decreases n,
{
    if n < 10 {
        lemma_digit_char(n);
        let d = decimal(n);
        assert(d =~= seq![digit_char(n)]);
        assert(d.drop_first() =~= Seq::<char>::empty());
        assert(scan_u32(d.drop_first(), n) == Ok::<u32, IntErrorKind>(n as u32));
        assert(scan_u32(d, 0) == scan_u32(d.drop_first(), 0 * 10 + digit_value(d[0])));
    } else {
        lemma_scan_decimal(n / 10);
        lemma_digit_char(n % 10);
        lemma_scan_push(decimal(n / 10), digit_char(n % 10), 0, (n / 10) as u32);
    }
}

/// Reading the decimal representation of a 32-bit value gives it back.
pub proof fn lemma_parse_decimal(n: u32)
    ensures
        parse_u32_spec(decimal(n as nat)) == Ok::<u32, IntErrorKind>(n),
{
    lemma_scan_decimal(n as nat);
    lemma_decimal_digits(n as nat);
    assert(is_ascii_digit(decimal(n as nat)[0]));
}

/// A sequence free of `c` is a single piece.
pub proof fn lemma_split_char_free(s: Seq<char>, c: char)
    requires
        !s.contains(c),
    ensures
        split_char(s, c) == seq![s],
    decreases s.len(),
{
    if s.len() > 0 {
        assert(!s.drop_last().contains(c)) by {
            if s.drop_last().contains(c) {
                let j = choose|j: int| 0 <= j < s.drop_last().len() && s.drop_last()[j] == c;
                assert(s[j] == c);
            }
        }
        lemma_split_char_free(s.drop_last(), c);
        assert(s.last() != c) by {
            assert(s[s.len() - 1] == s.last());
        }
        assert(s.drop_last().push(s.last()) =~= s);
    } else {
        assert(s =~= Seq::<char>::empty());
    }
}

/// A separator followed by a `c`-free tail adds the tail as a new piece.
pub proof fn lemma_split_char_append(x: Seq<char>, c: char, t: Seq<char>)
    requires
        !t.contains(c),
    ensures
        split_char(x.push(c) + t, c) == split_char(x, c).push(t),
    decreases t.len(),
{
    if t.len() == 0 {
        assert(x.push(c) + t =~= x.push(c));
        assert(x.push(c).drop_last() =~= x);
        assert(t =~= Seq::<char>::empty());
    } else {
        let t0 = t.drop_last();
        assert(!t0.contains(c)) by {
            if t0.contains(c) {
                let j = choose|j: int| 0 <= j < t0.len() && t0[j] == c;
                assert(t[j] == c);
            }
        }
        lemma_split_char_append(x, c, t0);
        let s = x.push(c) + t;
        assert(s.drop_last() =~= x.push(c) + t0);
        assert(s.last() == t.last());
        assert(t.last() != c) by {
            assert(t[t.len() - 1] == t.last());
        }
        assert(t0.push(t.last()) =~= t);
        assert(split_char(s, c) =~= split_char(x, c).push(t));
    }
}

/// Decimal representations hold no `.`.
pub proof fn lemma_decimal_no_char(n: nat, c: char)
    requires
        !is_ascii_digit(c),
    ensures
        !decimal(n).contains(c),
{
    lemma_decimal_digits(n);
    if decimal(n).contains(c) {
        let j = choose|j: int| 0 <= j < decimal(n).len() && decimal(n)[j] == c;
        assert(is_ascii_digit(decimal(n)[j]));
    }
}

} // verus!

verus! {

/// `p` without one trailing carriage return.
pub open spec fn strip_cr(p: Seq<char>) -> Seq<char> {
    if p.len() > 0 && p.last() == '\r' {
        p.drop_last()
    } else {
        p
    }
}

/// `k` is the position of the first `c` in `s`.
pub open spec fn is_first_index(s: Seq<char>, c: char, k: int) -> bool {
    0 <= k < s.len() && s[k] == c && forall|j: int| 0 <= j < k ==> s[j] != c
}

/// The lines of `s` as `str::lines` yields them: pieces ended by `\n` (with
/// a `\r` just before it removed too), the last piece kept only when it is
/// not empty.
pub open spec fn lines_spec(s: Seq<char>) -> Seq<Seq<char>>
    decreases s.len(),
{
    if s.len() == 0 {
        seq![]
    } else if !s.contains('\n') {
        seq![s]
    } else {
        let k = choose|k: int| is_first_index(s, '\n', k);
        if 0 <= k < s.len() {
            seq![strip_cr(s.subrange(0, k))] + lines_spec(s.subrange(k + 1, s.len() as int))
        } else {
            seq![]
        }
    }
}

proof fn lemma_first_index_exists(s: Seq<char>, c: char)
    requires
        s.contains(c),
    ensures
        exists|k: int| is_first_index(s, c, k),
    decreases s.len(),
{
    let j = choose|j: int| 0 <= j < s.len() && s[j] == c;
    if s[0] == c {
        assert(is_first_index(s, c, 0));
    } else {
        let t = s.drop_first();
        assert(t[j - 1] == c);
        lemma_first_index_exists(t, c);
        let k = choose|k: int| is_first_index(t, c, k);
        assert forall|i: int| 0 <= i < k + 1 implies s[i] != c by {
            if i > 0 {
                assert(s[i] == t[i - 1]);
            }
        }
        assert(s[k + 1] == t[k]);
        assert(is_first_index(s, c, k + 1));
    }
}

proof fn lemma_first_index_unique(s: Seq<char>, c: char, a: int, b: int)
    requires
        is_first_index(s, c, a),
        is_first_index(s, c, b),
    ensures
        a == b,
{
}

/// The lines of `s` when its first newline stands at `k`.
proof fn lemma_lines_step(s: Seq<char>, k: int)
    requires
        is_first_index(s, '\n', k),
    ensures
        lines_spec(s) == seq![strip_cr(s.subrange(0, k))] + lines_spec(
            s.subrange(k + 1, s.len() as int),
        ),
{
    assert(s.contains('\n')) by {
        assert(s[k] == '\n');
    }
    let k2 = choose|k2: int| is_first_index(s, '\n', k2);
    lemma_first_index_exists(s, '\n');
    lemma_first_index_unique(s, '\n', k, k2);
}

/// The positions of the lines of `cs`: line `i` is `cs[r[i].0 .. r[i].1]`.
pub fn line_ranges(cs: &[char]) -> (r: Vec<(usize, usize)>)
    ensures
        r@.len() == lines_spec(cs@).len(),
        forall|i: int|
            0 <= i < r@.len() ==> (#[trigger] r@[i]).0 <= r@[i].1 <= cs@.len()
                && cs@.subrange(r@[i].0 as int, r@[i].1 as int) == lines_spec(cs@)[i],
{
    let mut r: Vec<(usize, usize)> = Vec::new();
    let mut start: usize = 0;
    let mut i: usize = 0;
    let n = cs.len();
    assert(cs@.subrange(0, n as int) =~= cs@);
    while i < n
        invariant
            n == cs@.len(),
            start <= i <= n,
            forall|j: int| start <= j < i ==> cs@[j] != '\n',
            lines_spec(cs@) == r@.map_values(
                |p: (usize, usize)| cs@.subrange(p.0 as int, p.1 as int),
            ) + lines_spec(cs@.subrange(start as int, n as int)),
            forall|t: int| 0 <= t < r@.len() ==> (#[trigger] r@[t]).0 <= r@[t].1 <= n,
        decreases n - i,
    {
        if cs[i] == '\n' {
            let ghost rest = cs@.subrange(start as int, n as int);
            proof {
                assert(is_first_index(rest, '\n', i - start));
                lemma_lines_step(rest, i - start);
                assert(rest.subrange(0, i - start) =~= cs@.subrange(start as int, i as int));
                assert(rest.subrange(i - start + 1, rest.len() as int) =~= cs@.subrange(
                    i + 1,
                    n as int,
                ));
            }
            let end = if i > start && cs[i - 1] == '\r' { i - 1 } else { i };
            proof {
                let piece = cs@.subrange(start as int, i as int);
                if i > start && cs@[i - 1] == '\r' {
                    assert(piece.last() == '\r');
                    assert(strip_cr(piece) =~= cs@.subrange(start as int, end as int));
                } else {
                    assert(strip_cr(piece) =~= cs@.subrange(start as int, end as int));
                }
            }
            let ghost old_r = r@;
            r.push((start, end));
            proof {
                let f = |p: (usize, usize)| cs@.subrange(p.0 as int, p.1 as int);
                assert(r@.map_values(f) =~= old_r.map_values(f).push(
                    cs@.subrange(start as int, end as int),
                ));
                assert(lines_spec(cs@) =~= r@.map_values(f) + lines_spec(
                    cs@.subrange(i + 1, n as int),
                ));
            }
            start = i + 1;
        }
        i = i + 1;
    }
    let ghost rest = cs@.subrange(start as int, n as int);
    if start < n {
        proof {
            assert(!rest.contains('\n')) by {
                if rest.contains('\n') {
                    let j = choose|j: int| 0 <= j < rest.len() && rest[j] == '\n';
                    assert(cs@[start + j] == '\n');
                }
            }
            assert(lines_spec(rest) == seq![rest]);
        }
        let ghost old_r = r@;
        r.push((start, n));
        proof {
            let f = |p: (usize, usize)| cs@.subrange(p.0 as int, p.1 as int);
            assert(r@.map_values(f) =~= old_r.map_values(f).push(rest));
            assert(lines_spec(cs@) =~= r@.map_values(f));
        }
    } else {
        proof {
            assert(rest.len() == 0);
            let f = |p: (usize, usize)| cs@.subrange(p.0 as int, p.1 as int);
            assert(lines_spec(cs@) =~= r@.map_values(f));
        }
    }
    proof {
        let f = |p: (usize, usize)| cs@.subrange(p.0 as int, p.1 as int);
        assert forall|t: int| 0 <= t < r@.len() implies cs@.subrange(
            (#[trigger] r@[t]).0 as int,
            r@[t].1 as int,
        ) == lines_spec(cs@)[t] by {
            assert(r@.map_values(f)[t] == f(r@[t]));
        }
    }
    r
}

} // verus!

verus! {

/// Whether `p` is a prefix of `s`.
pub fn chars_prefix(s: &[char], p: &[char]) -> (r: bool)
    ensures
        r == p@.is_prefix_of(s@),
{
    if p.len() > s.len() {
        return false;
    }
    let r = matches_at(s, p, 0);
    assert(r == (s@.subrange(0, p@.len() as int) == p@));
    r
}

} // verus!

verus! {

/// `c` is an ASCII letter.
pub open spec fn is_ascii_alpha(c: char) -> bool {
    ('a' <= c && c <= 'z') || ('A' <= c && c <= 'Z')
}

/// The rest of a control sequence's text after its final letter (or
/// nothing, when no letter ends it).
pub open spec fn after_csi(t: Seq<char>) -> Seq<char>
    decreases t.len(),
{
    if t.len() == 0 {
        t
    } else if is_ascii_alpha(t[0]) {
        t.drop_first()
    } else {
        after_csi(t.drop_first())
    }
}

pub proof fn lemma_after_csi_shorter(t: Seq<char>)
    ensures
        after_csi(t).len() <= t.len(),
    decreases t.len(),
{
    if t.len() > 0 && !is_ascii_alpha(t[0]) {
        lemma_after_csi_shorter(t.drop_first());
    }
}

/// `s` with ANSI escape codes removed: an escape character followed by `[`
/// starts a control sequence that runs up to and including the next ASCII
/// letter; an escape character not followed by `[` is dropped alone.
pub open spec fn strip_ansi(s: Seq<char>) -> Seq<char>
    decreases s.len(),
{
    if s.len() == 0 {
        s
    } else if s[0] == '\x1b' {
        if s.len() >= 2 && s[1] == '[' {
            let rest = after_csi(s.subrange(2, s.len() as int));
            proof {
                lemma_after_csi_shorter(s.subrange(2, s.len() as int));
            }
            strip_ansi(rest)
        } else {
            strip_ansi(s.drop_first())
        }
    } else {
        seq![s[0]] + strip_ansi(s.drop_first())
    }
}

/// Strip ANSI escape codes from string (for clean log output)
pub fn strip_ansi_codes(s: &str) -> (r: String)
    ensures
        r@ == strip_ansi(s@),
{
    let cs = chars_of(s);
    let n = cs.len();
    let mut out: Vec<char> = Vec::new();
    let mut i: usize = 0;
    assert(cs@.subrange(0, n as int) =~= cs@);
    while i < n
        invariant
            n == cs@.len(),
            cs@ == s@,
            i <= n,
            strip_ansi(s@) == out@ + strip_ansi(cs@.subrange(i as int, n as int)),
        decreases n - i,
    {
        let ghost rest = cs@.subrange(i as int, n as int);
        let c = cs[i];
        assert(rest[0] == c);
        if c == '\x1b' {
            if i + 1 < n && cs[i + 1] == '[' {
                assert(rest[1] == '[');
                assert(rest.subrange(2, rest.len() as int) =~= cs@.subrange(i + 2, n as int));
                let mut j = i + 2;
                while j < n && !(('a' <= cs[j] && cs[j] <= 'z') || ('A' <= cs[j] && cs[j] <= 'Z'))
                    invariant
                        n == cs@.len(),
                        i + 2 <= j <= n,
                        after_csi(cs@.subrange(i + 2, n as int)) == after_csi(
                            cs@.subrange(j as int, n as int),
                        ),
                    decreases n - j,
                {
                    assert(cs@.subrange(j as int, n as int).drop_first() =~= cs@.subrange(
                        j + 1,
                        n as int,
                    ));
                    j = j + 1;
                }
                if j < n {
                    assert(cs@.subrange(j as int, n as int).drop_first() =~= cs@.subrange(
                        j + 1,
                        n as int,
                    ));
                    i = j + 1;
                } else {
                    assert(cs@.subrange(j as int, n as int) =~= Seq::<char>::empty());
                    i = j;
                }
            } else {
                assert(rest.drop_first() =~= cs@.subrange(i + 1, n as int));
                i = i + 1;
            }
        } else {
            assert(rest.drop_first() =~= cs@.subrange(i + 1, n as int));
            out.push(c);
            i = i + 1;
            assert(strip_ansi(s@) =~= out@ + strip_ansi(cs@.subrange(i as int, n as int)));
        }
    }
    assert(cs@.subrange(n as int, n as int) =~= Seq::<char>::empty());
    assert(out@ =~= strip_ansi(s@));
    string_from_chars(out.as_slice())
}

/// The cleaned text holds no escape character, and text without escape
/// characters is left as it is.
pub proof fn lemma_strip_ansi(s: Seq<char>)
    ensures
        !strip_ansi(s).contains('\x1b'),
        !s.contains('\x1b') ==> strip_ansi(s) == s,
    decreases s.len(),
{
    if s.len() == 0 {
    } else if s[0] == '\x1b' {
        if s.len() >= 2 && s[1] == '[' {
            lemma_after_csi_shorter(s.subrange(2, s.len() as int));
            lemma_strip_ansi(after_csi(s.subrange(2, s.len() as int)));
        } else {
            lemma_strip_ansi(s.drop_first());
        }
        assert(s.contains('\x1b')) by {
            assert(s[0] == '\x1b');
        }
    } else {
        let t = s.drop_first();
        lemma_strip_ansi(t);
        let r = seq![s[0]] + strip_ansi(t);
        if r.contains('\x1b') {
            let k = choose|k: int| 0 <= k < r.len() && r[k] == '\x1b';
            if k > 0 {
                assert(strip_ansi(t)[k - 1] == '\x1b');
            }
        }
        if !s.contains('\x1b') {
            assert(!t.contains('\x1b')) by {
                if t.contains('\x1b') {
                    let k = choose|k: int| 0 <= k < t.len() && t[k] == '\x1b';
                    assert(s[k + 1] == '\x1b');
                }
            }
            assert(r =~= s);
        }
    }
}

/// Cleaning twice gives what cleaning once gives.
pub proof fn lemma_strip_ansi_idempotent(s: Seq<char>)
    ensures
        strip_ansi(strip_ansi(s)) == strip_ansi(s),
{
    lemma_strip_ansi(s);
    lemma_strip_ansi(strip_ansi(s));
}

} // verus!

verus! {

/// A name joined onto a base path, as `Path::join` joins them on Unix: an
/// absolute name replaces the base, an empty base gives the name, and a
/// separator is put between the two unless the base already ends in one.
pub open spec fn path_join(base: Seq<char>, name: Seq<char>) -> Seq<char> {
    if name.len() > 0 && name[0] == '/' {
        name
    } else if base.len() == 0 {
        name
    } else if base.last() == '/' {
        base + name
    } else {
        base + seq!['/'] + name
    }
}

/// Joins a name onto a base path.
pub fn join_path(base: &str, name: &str) -> (r: String)
    ensures
        r@ == path_join(base@, name@),
{
    let n = chars_of(name);
    if n.len() > 0 && n[0] == '/' {
        return String::from_str(name);
    }
    let b = chars_of(base);
    if b.len() == 0 {
        return String::from_str(name);
    }
    let mut s = String::from_str(base);
    if b[b.len() - 1] != '/' {
        s.push('/');
    }
    s.append(name);
    s
}

} // verus!

verus! {

/// Whether `c` is white space as Unicode defines it, which is what
/// `char::is_whitespace` answers.
pub open spec fn is_white_space(c: char) -> bool {
    ('\t' <= c && c <= '\r') || c == ' ' || c == '\u{85}' || c == '\u{a0}' || c == '\u{1680}' || (
    '\u{2000}' <= c && c <= '\u{200a}') || c == '\u{2028}' || c == '\u{2029}' || c == '\u{202f}'
        || c == '\u{205f}' || c == '\u{3000}'
}

/// Whether a character is white space.
pub fn is_whitespace_char(c: char) -> (r: bool)
    ensures
        r == is_white_space(c),
{
    ('\t' <= c && c <= '\r') || c == ' ' || c == '\u{85}' || c == '\u{a0}' || c == '\u{1680}' || (
    '\u{2000}' <= c && c <= '\u{200a}') || c == '\u{2028}' || c == '\u{2029}' || c == '\u{202f}'
        || c == '\u{205f}' || c == '\u{3000}'
}

/// `s` without its leading white space.
pub open spec fn trim_start_ws(s: Seq<char>) -> Seq<char>
    decreases s.len(),
{
    if s.len() > 0 && is_white_space(s[0]) {
        trim_start_ws(s.drop_first())
    } else {
        s
    }
}

/// `s` without its trailing white space.
pub open spec fn trim_end_ws(s: Seq<char>) -> Seq<char>
    decreases s.len(),
{
    if s.len() > 0 && is_white_space(s.last()) {
        trim_end_ws(s.drop_last())
    } else {
        s
    }
}

/// `s` without white space at either end, as `str::trim` gives it.
pub open spec fn trim_ws(s: Seq<char>) -> Seq<char> {
    trim_end_ws(trim_start_ws(s))
}

/// The bounds of `cs` without white space at either end.
pub fn trim_bounds(cs: &[char]) -> (r: (usize, usize))
    ensures
        r.0 <= r.1 <= cs@.len(),
        cs@.subrange(r.0 as int, r.1 as int) == trim_ws(cs@),
{
    let n = cs.len();
    let mut a: usize = 0;
    assert(cs@.subrange(0, n as int) =~= cs@);
    while a < n && is_whitespace_char(cs[a])
        invariant
            n == cs@.len(),
            a <= n,
            trim_start_ws(cs@) == trim_start_ws(cs@.subrange(a as int, n as int)),
        decreases n - a,
    {
        let ghost rest = cs@.subrange(a as int, n as int);
        assert(rest.drop_first() =~= cs@.subrange(a + 1, n as int));
        a = a + 1;
    }
    let ghost front = cs@.subrange(a as int, n as int);
    assert(trim_start_ws(cs@) == front);
    let mut b: usize = n;
    while b > a && is_whitespace_char(cs[b - 1])
        invariant
            n == cs@.len(),
            a <= b <= n,
            front == cs@.subrange(a as int, n as int),
            trim_end_ws(front) == trim_end_ws(cs@.subrange(a as int, b as int)),
        decreases b - a,
    {
        let ghost rest = cs@.subrange(a as int, b as int);
        assert(rest.drop_last() =~= cs@.subrange(a as int, b - 1));
        b = b - 1;
    }
    (a, b)
}

/// The words of `s`: its longest runs of characters that are not white
/// space, in order, as `str::split_whitespace` yields them.
pub open spec fn words(s: Seq<char>) -> Seq<Seq<char>>
    decreases s.len(),
{
    if s.len() == 0 {
        Seq::empty()
    } else {
        let w = words(s.drop_last());
        if is_white_space(s.last()) {
            w
        } else if s.len() >= 2 && !is_white_space(s[s.len() - 2]) {
            w.drop_last().push(w.last().push(s.last()))
        } else {
            w.push(seq![s.last()])
        }
    }
}

/// The pieces of `cs` that a list of bounds marks.
pub open spec fn pieces(cs: Seq<char>, r: Seq<(usize, usize)>) -> Seq<Seq<char>> {
    r.map_values(|p: (usize, usize)| cs.subrange(p.0 as int, p.1 as int))
}

/// The bounds of the words of `cs`.
pub fn word_bounds(cs: &[char]) -> (r: Vec<(usize, usize)>)
    ensures
        forall|t: int| 0 <= t < r@.len() ==> (#[trigger] r@[t]).0 <= r@[t].1 <= cs@.len(),
        pieces(cs@, r@) == words(cs@),
{
    let n = cs.len();
    let mut r: Vec<(usize, usize)> = Vec::new();
    let mut start: usize = 0;
    let mut in_word = false;
    let mut i: usize = 0;
    while i < n
        invariant
            n == cs@.len(),
            i <= n,
            forall|t: int| 0 <= t < r@.len() ==> (#[trigger] r@[t]).0 <= r@[t].1 <= n,
            in_word ==> start < i && !is_white_space(cs@[i - 1]),
            !in_word ==> (i == 0 || is_white_space(cs@[i - 1])),
            in_word ==> words(cs@.take(i as int)) == pieces(cs@, r@).push(
                cs@.subrange(start as int, i as int),
            ),
            !in_word ==> words(cs@.take(i as int)) == pieces(cs@, r@),
        decreases n - i,
    {
        let c = cs[i];
        let ghost prev = cs@.take(i as int);
        assert(cs@.take(i + 1).drop_last() =~= prev);
        assert(cs@.take(i + 1).last() == c);
        if is_whitespace_char(c) {
            if in_word {
                let ghost before = r@;
                r.push((start, i));
                assert(pieces(cs@, r@) =~= pieces(cs@, before).push(
                    cs@.subrange(start as int, i as int),
                ));
                in_word = false;
            }
        } else {
            if in_word {
                assert(cs@.take(i + 1)[i - 1] == cs@[i - 1]);
                assert(cs@.subrange(start as int, i + 1) =~= cs@.subrange(start as int, i as int).push(
                    c,
                ));
            } else {
                assert(i > 0 ==> cs@.take(i + 1)[i - 1] == cs@[i - 1]);
                assert(cs@.subrange(i as int, i + 1) =~= seq![c]);
                start = i;
                in_word = true;
            }
        }
        i = i + 1;
    }
    assert(cs@.take(n as int) =~= cs@);
    if in_word {
        let ghost before = r@;
        r.push((start, n));
        assert(pieces(cs@, r@) =~= pieces(cs@, before).push(cs@.subrange(start as int, n as int)));
    }
    r
}

/// The words of a string, as separate strings.
pub fn split_words(s: &str) -> (r: Vec<String>)
    ensures
        r@.map_values(|w: String| w@) == words(s@),
{
    let cs = chars_of(s);
    let b = word_bounds(cs.as_slice());
    let mut r: Vec<String> = Vec::new();
    let mut i: usize = 0;
    while i < b.len()
        invariant
            cs@ == s@,
            i <= b@.len(),
            forall|t: int| 0 <= t < b@.len() ==> (#[trigger] b@[t]).0 <= b@[t].1 <= cs@.len(),
            pieces(cs@, b@) == words(s@),
            r@.map_values(|w: String| w@) == pieces(cs@, b@).take(i as int),
        decreases b@.len() - i,
    {
        let (x, y) = b[i];
        let w = string_from_chars(&cs.as_slice()[x..y]);
        let ghost before = r@;
        r.push(w);
        assert(r@.map_values(|w: String| w@) =~= before.map_values(|w: String| w@).push(w@));
        assert(pieces(cs@, b@).take(i + 1) =~= pieces(cs@, b@).take(i as int).push(
            pieces(cs@, b@)[i as int],
        ));
        i = i + 1;
    }
    assert(pieces(cs@, b@).take(b@.len() as int) =~= pieces(cs@, b@));
    r
}

} // verus!
