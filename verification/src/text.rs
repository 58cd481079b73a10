//! Text helpers: decimal rendering of integers, the whitespace class of
//! `char::is_whitespace`, and parsing of unsigned decimal tokens.

use vstd::prelude::*;
use vstd::string::*;

verus! {

/// The character of a decimal digit `d` (`d < 10`).
pub open spec fn digit_char(d: int) -> char {
    (48 + d) as char
}

/// The decimal representation of `n`, most significant digit first, without
/// sign or leading zeros (`"0"` for zero).
pub open spec fn decimal(n: nat) -> Seq<char>
    decreases n,
{
    if n < 10 {
        seq![digit_char(n as int)]
    } else {
        decimal(n / 10).push(digit_char((n % 10) as int))
    }
}

fn digit_str(d: u64) -> (s: &'static str)
    requires
        d < 10,
    ensures
        s@ == seq![digit_char(d as int)],
{
    proof {
        reveal_strlit("0");
        reveal_strlit("1");
        reveal_strlit("2");
        reveal_strlit("3");
        reveal_strlit("4");
        reveal_strlit("5");
        reveal_strlit("6");
        reveal_strlit("7");
        reveal_strlit("8");
        reveal_strlit("9");
    }
    let s = if d == 0 {
        "0"
    } else if d == 1 {
        "1"
    } else if d == 2 {
        "2"
    } else if d == 3 {
        "3"
    } else if d == 4 {
        "4"
    } else if d == 5 {
        "5"
    } else if d == 6 {
        "6"
    } else if d == 7 {
        "7"
    } else if d == 8 {
        "8"
    } else {
        "9"
    };
    assert(s@ =~= seq![digit_char(d as int)]);
    s
}

/// Renders `n` in decimal, as `format!("{}", n)` does.
pub fn u64_to_decimal(n: u64) -> (s: String)
    ensures
        s@ == decimal(n as nat),
    decreases n,
{
    if n < 10 {
        String::from_str(digit_str(n))
    } else {
        let mut s = u64_to_decimal(n / 10);
        s.append(digit_str(n % 10));
        s
    }
}

} // verus!

verus! {

/// The decimal representation of a signed integer, with a leading `-` for
/// negative values.
pub open spec fn decimal_i32(n: int) -> Seq<char> {
    if n < 0 {
        "-"@ + decimal((-n) as nat)
    } else {
        decimal(n as nat)
    }
}

/// Renders `n` in decimal, as `format!("{}", n)` does.
pub fn i32_to_decimal(n: i32) -> (s: String)
    ensures
        s@ == decimal_i32(n as int),
{
    if n < 0 {
        let m: u64 = (0i64 - (n as i64)) as u64;
        let mut s = String::from_str("-");
        let d = u64_to_decimal(m);
        s.append(d.as_str());
        s
    } else {
        u64_to_decimal(n as u64)
    }
}

} // verus!

verus! {

/// The characters of `s`, in order.
pub fn str_chars(s: &str) -> (v: Vec<char>)
    ensures
        v@ == s@,
{
    let mut v: Vec<char> = Vec::new();
    for c in it: s.chars()
        invariant
            v@ == it.seq().take(it.index() as int),
            it.seq() == s@,
    {
        v.push(c);
    }
    v
}

} // verus!

verus! {

/// The characters with the Unicode `White_Space` property, which is what
/// `char::is_whitespace` tests.
pub open spec fn is_ws(c: char) -> bool {
    ||| '\u{9}' <= c <= '\u{d}'
    ||| c == ' '
    ||| c == '\u{85}'
    ||| c == '\u{a0}'
    ||| c == '\u{1680}'
    ||| '\u{2000}' <= c <= '\u{200a}'
    ||| c == '\u{2028}'
    ||| c == '\u{2029}'
    ||| c == '\u{202f}'
    ||| c == '\u{205f}'
    ||| c == '\u{3000}'
}

pub fn is_ws_exec(c: char) -> (r: bool)
    ensures
        r == is_ws(c),
{
    ('\u{9}' <= c && c <= '\u{d}') || c == ' ' || c == '\u{85}' || c == '\u{a0}' || c == '\u{1680}'
        || ('\u{2000}' <= c && c <= '\u{200a}') || c == '\u{2028}' || c == '\u{2029}' || c
        == '\u{202f}' || c == '\u{205f}' || c == '\u{3000}'
}

/// Whether `c` is an ASCII decimal digit.
pub open spec fn is_digit(c: char) -> bool {
    '0' <= c <= '9'
}

/// The value of a sequence of decimal digits.
pub open spec fn digits_value(d: Seq<char>) -> nat
    decreases d.len(),
{
    if d.len() == 0 {
        0
    } else {
        digits_value(d.drop_last()) * 10 + ((d.last() as int) - 48) as nat
    }
}

/// The digits of an unsigned decimal token: an optional leading `+`
/// followed by the rest.
pub open spec fn unsigned_digits(t: Seq<char>) -> Seq<char> {
    if t.len() > 0 && t[0] == '+' {
        t.subrange(1, t.len() as int)
    } else {
        t
    }
}

/// The value of an unsigned decimal token as `str::parse` reads it: an
/// optional `+`, then one or more ASCII digits, the value at most `max`.
pub open spec fn parse_unsigned(t: Seq<char>, max: u64) -> Option<u64> {
    let d = unsigned_digits(t);
    if d.len() > 0 && (forall|i: int| 0 <= i < d.len() ==> #[trigger] is_digit(d[i])) && digits_value(
        d,
    ) <= max {
        Some(digits_value(d) as u64)
    } else {
        None
    }
}

/// Parses `s[from..to]` as an unsigned decimal token no greater than `max`.
pub fn parse_unsigned_exec(s: &Vec<char>, from: usize, to: usize, max: u64) -> (r: Option<u64>)
    requires
        from <= to <= s@.len(),
    ensures
        r == parse_unsigned(s@.subrange(from as int, to as int), max),
{
    let ghost t = s@.subrange(from as int, to as int);
    let mut start = from;
    if start < to && s[start] == '+' {
        start = start + 1;
    }
    let ghost d = s@.subrange(start as int, to as int);
    assert(d =~= unsigned_digits(t));
    if start >= to {
        return None;
    }
    let mut value: u64 = 0;
    let mut i = start;
    let mut overflow = false;
    while i < to
        invariant
            start <= i <= to,
            to <= s@.len(),
            d == s@.subrange(start as int, to as int),
            d == unsigned_digits(t),
            t == s@.subrange(from as int, to as int),
            forall|j: int| start <= j < i ==> #[trigger] is_digit(s@[j]),
            !overflow ==> value == digits_value(d.take(i - start)) && value <= max,
            overflow ==> digits_value(d.take(i - start)) > max,
        decreases to - i,
    {
        let c = s[i];
        if !('0' <= c && c <= '9') {
            assert(!is_digit(d[i - start]));
            assert(!(forall|j: int| 0 <= j < d.len() ==> #[trigger] is_digit(d[j])));
            return None;
        }
        proof {
            assert(d.take(i - start + 1).drop_last() =~= d.take(i - start));
            assert(d.take(i - start + 1).last() == c);
        }
        let digit = (c as u32 - 48) as u64;
        if !overflow {
            let next = match value.checked_mul(10) {
                Some(v10) => v10.checked_add(digit),
                None => None,
            };
            match next {
                Some(v) if v <= max => {
                    value = v;
                },
                _ => {
                    overflow = true;
                },
            }
        } else {
            assert(digits_value(d.take(i - start + 1)) >= digits_value(d.take(i - start))) by (nonlinear_arith)
                requires
                    digits_value(d.take(i - start + 1)) == digits_value(d.take(i - start)) * 10 + digit,
            ;
        }
        i = i + 1;
    }
    assert(d.take(to - start) =~= d);
    if overflow {
        None
    } else {
        Some(value)
    }
}

} // verus!

verus! {

/// The first index in `[i, e)` whose character satisfies `stop`, or `e`.
pub open spec fn scan_until(s: Seq<char>, i: int, e: int, stop: spec_fn(char) -> bool) -> int
    decreases e - i,
{
    if i >= e {
        e
    } else if stop(s[i]) {
        i
    } else {
        scan_until(s, i + 1, e, stop)
    }
}

pub proof fn lemma_scan_bounds(s: Seq<char>, i: int, e: int, stop: spec_fn(char) -> bool)
    requires
        i <= e,
    ensures
        i <= scan_until(s, i, e, stop) <= e,
        forall|j: int| i <= j < scan_until(s, i, e, stop) ==> !stop(#[trigger] s[j]),
        scan_until(s, i, e, stop) < e ==> stop(s[scan_until(s, i, e, stop)]),
    decreases e - i,
{
    if i < e && !stop(s[i]) {
        lemma_scan_bounds(s, i + 1, e, stop);
    }
}

/// A line ends at a newline.
pub open spec fn newline() -> spec_fn(char) -> bool {
    |c: char| c == '\n'
}

/// A comment starts at `#`.
pub open spec fn hash() -> spec_fn(char) -> bool {
    |c: char| c == '#'
}

/// A field starts at a character that is not whitespace.
pub open spec fn non_ws() -> spec_fn(char) -> bool {
    |c: char| !is_ws(c)
}

/// A field ends at whitespace.
pub open spec fn ws() -> spec_fn(char) -> bool {
    |c: char| is_ws(c)
}

/// The end of the line that starts at `i`: the next newline, or the end.
pub open spec fn line_end(s: Seq<char>, i: int) -> int {
    scan_until(s, i, s.len() as int, newline())
}

/// The end of the content of the line `[i, e)`: the first `#`, or `e`.
pub open spec fn content_end(s: Seq<char>, i: int, e: int) -> int {
    scan_until(s, i, e, hash())
}

/// The bounds of the first whitespace-separated field of `s[i..e]`; the
/// field is empty (start == e) when there is none.
pub open spec fn field(s: Seq<char>, i: int, e: int) -> (int, int) {
    let a = scan_until(s, i, e, non_ws());
    (a, scan_until(s, a, e, ws()))
}

pub fn line_end_exec(s: &Vec<char>, i: usize) -> (r: usize)
    requires
        i <= s@.len(),
    ensures
        r == line_end(s@, i as int),
        i <= r <= s@.len(),
{
    let ghost stop = newline();
    let mut j = i;
    proof {
        lemma_scan_bounds(s@, i as int, s@.len() as int, stop);
    }
    while j < s.len() && s[j] != '\n'
        invariant
            i <= j <= s@.len(),
            scan_until(s@, i as int, s@.len() as int, newline()) == scan_until(s@, j as int, s@.len() as int, newline()),
        decreases s@.len() - j,
    {
        assert(!newline()(s@[j as int]));
        j = j + 1;
    }
    j
}

pub fn content_end_exec(s: &Vec<char>, i: usize, e: usize) -> (r: usize)
    requires
        i <= e <= s@.len(),
    ensures
        r == content_end(s@, i as int, e as int),
        i <= r <= e,
{
    let ghost stop = hash();
    let mut j = i;
    proof {
        lemma_scan_bounds(s@, i as int, e as int, stop);
    }
    while j < e && s[j] != '#'
        invariant
            i <= j <= e,
            e <= s@.len(),
            scan_until(s@, i as int, e as int, hash()) == scan_until(s@, j as int, e as int, hash()),
        decreases e - j,
    {
        assert(!hash()(s@[j as int]));
        j = j + 1;
    }
    j
}

pub fn field_exec(s: &Vec<char>, i: usize, e: usize) -> (r: (usize, usize))
    requires
        i <= e <= s@.len(),
    ensures
        r.0 == field(s@, i as int, e as int).0,
        r.1 == field(s@, i as int, e as int).1,
        i <= r.0 <= r.1 <= e,
{
    let ghost skip = non_ws();
    let ghost stop = ws();
    let mut a = i;
    proof {
        lemma_scan_bounds(s@, i as int, e as int, skip);
    }
    while a < e && is_ws_exec(s[a])
        invariant
            i <= a <= e,
            e <= s@.len(),
            scan_until(s@, i as int, e as int, non_ws()) == scan_until(s@, a as int, e as int, non_ws()),
        decreases e - a,
    {
        assert(!non_ws()(s@[a as int]));
        a = a + 1;
    }
    let mut b = a;
    proof {
        lemma_scan_bounds(s@, a as int, e as int, stop);
    }
    while b < e && !is_ws_exec(s[b])
        invariant
            a <= b <= e,
            e <= s@.len(),
            scan_until(s@, a as int, e as int, ws()) == scan_until(s@, b as int, e as int, ws()),
        decreases e - b,
    {
        assert(!ws()(s@[b as int]));
        b = b + 1;
    }
    (a, b)
}

} // verus!
