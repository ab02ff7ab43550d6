//! Decimal rendering and parsing of integers, as `Display` and `str::parse`
//! do it for the integer types.

use vstd::prelude::*;

verus! {

// ───────────────────────── specifications ─────────────────────────

/// The ASCII digit for `d < 10`.
pub open spec fn digit_char(d: nat) -> char {
    ((48 + d) as u32) as char
}

/// Whether `c` is an ASCII decimal digit.
pub open spec fn is_digit(c: char) -> bool {
    48 <= (c as u32) <= 57
}

/// The value of the ASCII digit `c`.
pub open spec fn digit_value(c: char) -> nat {
    ((c as u32) - 48) as nat
}

/// The decimal digits of `n`, most significant first, without leading zeros.
pub open spec fn digits(n: nat) -> Seq<char>
    decreases n,
{
    if n < 10 {
        seq![digit_char(n)]
    } else {
        digits(n / 10).push(digit_char(n % 10))
    }
}

/// The decimal form of `n`, with a leading `-` when it is negative.
pub open spec fn decimal(n: int) -> Seq<char> {
    if n < 0 {
        seq!['-'] + digits((-n) as nat)
    } else {
        digits(n as nat)
    }
}

/// `s` is a non-empty run of ASCII digits.
pub open spec fn all_digits(s: Seq<char>) -> bool {
    s.len() > 0 && forall|i: int| 0 <= i < s.len() ==> is_digit(#[trigger] s[i])
}

/// The value of a run of ASCII digits.
pub open spec fn digits_value(s: Seq<char>) -> nat
    decreases s.len(),
{
    if s.len() == 0 {
        0
    } else {
        digits_value(s.drop_last()) * 10 + digit_value(s.last())
    }
}

/// The integer that `s` spells when signs are allowed: an optional `+` or `-`
/// followed by at least one ASCII digit, and nothing else.
pub open spec fn signed_value(s: Seq<char>) -> Option<int> {
    if s.len() > 0 && s[0] == '-' && all_digits(s.drop_first()) {
        Some(-(digits_value(s.drop_first()) as int))
    } else if s.len() > 0 && s[0] == '+' && all_digits(s.drop_first()) {
        Some(digits_value(s.drop_first()) as int)
    } else if all_digits(s) {
        Some(digits_value(s) as int)
    } else {
        None
    }
}

/// The integer that `s` spells when only `+` may lead: an optional `+`
/// followed by at least one ASCII digit, and nothing else.
pub open spec fn unsigned_value(s: Seq<char>) -> Option<int> {
    if s.len() > 0 && s[0] == '+' && all_digits(s.drop_first()) {
        Some(digits_value(s.drop_first()) as int)
    } else if all_digits(s) {
        Some(digits_value(s) as int)
    } else {
        None
    }
}

/// `s.parse::<i32>()`, with `None` for every error.
pub open spec fn parse_i32_spec(s: Seq<char>) -> Option<i32> {
    match signed_value(s) {
        Some(v) => if i32::MIN <= v <= i32::MAX {
            Some(v as i32)
        } else {
            None
        },
        None => None,
    }
}

/// `s.parse::<u32>()`, with `None` for every error.
pub open spec fn parse_u32_spec(s: Seq<char>) -> Option<u32> {
    match unsigned_value(s) {
        Some(v) => if 0 <= v <= u32::MAX {
            Some(v as u32)
        } else {
            None
        },
        None => None,
    }
}

// ───────────────────────── lemmas ─────────────────────────

proof fn lemma_digit_char(d: nat)
    requires
        d < 10,
    ensures
        is_digit(digit_char(d)),
        digit_value(digit_char(d)) == d,
{
    assert((((48 + d) as u32) as char) as u32 == 48 + d);
}

proof fn lemma_digits_are_digits(n: nat)
    ensures
        all_digits(digits(n)),
        digits_value(digits(n)) == n,
        digits(n).len() > 0,
    decreases n,
{
    if n < 10 {
        lemma_digit_char(n);
        let d = digits(n);
        assert(d.drop_last() =~= Seq::<char>::empty());
        assert(digits_value(d.drop_last()) == 0);
        assert(d.last() == digit_char(n));
        assert(digits_value(d) == digits_value(d.drop_last()) * 10 + digit_value(d.last()));
    } else {
        lemma_digit_char(n % 10);
        lemma_digits_are_digits(n / 10);
        let d = digits(n);
        assert(d.drop_last() == digits(n / 10));
        assert(d.last() == digit_char(n % 10));
        assert(digits_value(d) == digits_value(digits(n / 10)) * 10 + digit_value(d.last()));
        assert((n / 10) * 10 + n % 10 == n);
        assert forall|i: int| 0 <= i < d.len() implies is_digit(#[trigger] d[i]) by {
            if i < d.len() - 1 {
                assert(d[i] == digits(n / 10)[i]);
            }
        }
    }
}

proof fn lemma_value_grows(s: Seq<char>, c: char)
    requires
        is_digit(c),
    ensures
        digits_value(s.push(c)) >= digits_value(s) * 10,
        digits_value(s.push(c)) == digits_value(s) * 10 + digit_value(c),
{
    assert(s.push(c).drop_last() == s);
}

/// Rendering an integer and parsing the text back gives the integer again:
/// `decimal(n)` spells `n` for every `n`.
pub proof fn lemma_decimal_roundtrip(n: int)
    ensures
        signed_value(decimal(n)) == Some(n),
        n >= 0 ==> unsigned_value(decimal(n)) == Some(n),
{
    if n < 0 {
        let m = (-n) as nat;
        lemma_digits_are_digits(m);
        let s = decimal(n);
        assert(s.drop_first() =~= digits(m));
    } else {
        lemma_digits_are_digits(n as nat);
        let d = digits(n as nat);
        assert(is_digit(d[0]));
    }
}

/// Parsing the text that `render_i32` produces gives the value back.
pub proof fn law_i32_text_roundtrip(n: i32)
    ensures
        parse_i32_spec(decimal(n as int)) == Some(n),
{
    lemma_decimal_roundtrip(n as int);
}

/// Parsing the text that `render_u32` produces gives the value back.
pub proof fn law_u32_text_roundtrip(n: u32)
    ensures
        parse_u32_spec(decimal(n as int)) == Some(n),
{
    lemma_decimal_roundtrip(n as int);
}

// ───────────────────────── rendering ─────────────────────────

/// The ASCII digit for `d`.
fn digit_of(d: u64) -> (c: char)
    requires
        d < 10,
    ensures
        c == digit_char(d as nat),
{
    match d {
        0 => '0',
        1 => '1',
        2 => '2',
        3 => '3',
        4 => '4',
        5 => '5',
        6 => '6',
        7 => '7',
        8 => '8',
        _ => '9',
    }
}

fn push_digits(out: &mut Vec<char>, m: u64)
    ensures
        final(out)@ == old(out)@ + digits(m as nat),
    decreases m,
{
    if m >= 10 {
        push_digits(out, m / 10);
    }
    let d = m % 10;
    let ch = digit_of(d);
    out.push(ch);
    if m >= 10 {
        assert(old(out)@ + digits(m as nat) == old(out)@ + digits((m / 10) as nat) + seq![
            digit_char((m % 10) as nat),
        ]);
    }
}

/// Appends the decimal form of `n` to `out`.
pub fn push_decimal(out: &mut Vec<char>, n: i64)
    requires
        n > i64::MIN,
    ensures
        final(out)@ == old(out)@ + decimal(n as int),
{
    if n < 0 {
        out.push('-');
        push_digits(out, (-n) as u64);
        assert(old(out)@.push('-') + digits((-n) as nat) == old(out)@ + (seq!['-'] + digits(
            (-n) as nat,
        )));
    } else {
        push_digits(out, n as u64);
    }
}

/// Appends the decimal form of the count `n` to `out`.
pub fn push_count(out: &mut Vec<char>, n: usize)
    ensures
        final(out)@ == old(out)@ + decimal(n as int),
{
    push_digits(out, n as u64);
}

/// The decimal form of `n` (`n.to_string()`).
pub fn render_i32(n: i32) -> (s: String)
    ensures
        s@ == decimal(n as int),
{
    let mut v: Vec<char> = Vec::new();
    push_decimal(&mut v, n as i64);
    assert(Seq::<char>::empty() + decimal(n as int) == decimal(n as int));
    crate::text::string_of(&v)
}

/// The decimal form of `n` (`n.to_string()`).
pub fn render_u32(n: u32) -> (s: String)
    ensures
        s@ == decimal(n as int),
{
    let mut v: Vec<char> = Vec::new();
    push_decimal(&mut v, n as i64);
    assert(Seq::<char>::empty() + decimal(n as int) == decimal(n as int));
    crate::text::string_of(&v)
}

// ───────────────────────── parsing ─────────────────────────

/// The cap above which a digit run's value is not tracked exactly.
pub open spec fn value_cap() -> nat {
    10_000_000_000_000_000_000
}

/// Scans `v[from..]`: whether it is a non-empty run of digits, and its value
/// capped at `value_cap()`.
fn scan_digits(v: &Vec<char>, from: usize) -> (r: (bool, u64))
    requires
        from <= v@.len(),
    ensures
        r.0 == all_digits(v@.skip(from as int)),
        r.0 ==> r.1 == if digits_value(v@.skip(from as int)) < value_cap() {
            digits_value(v@.skip(from as int))
        } else {
            value_cap()
        },
{
    let n = v.len();
    if from == n {
        return (false, 0);
    }
    let cap: u64 = 10_000_000_000_000_000_000;
    let mut acc: u64 = 0;
    let mut i = from;
    while i < n
        invariant
            from <= i <= n == v@.len(),
            forall|k: int| from <= k < i ==> is_digit(#[trigger] v@[k]),
            acc == if digits_value(v@.subrange(from as int, i as int)) < value_cap() {
                digits_value(v@.subrange(from as int, i as int))
            } else {
                value_cap()
            },
            cap == value_cap(),
        decreases n - i,
    {
        let c = v[i];
        let u = c as u32;
        if !(48 <= u && u <= 57) {
            assert(!is_digit(v@.skip(from as int)[i - from]));
            return (false, 0);
        }
        let ghost pre = v@.subrange(from as int, i as int);
        proof {
            assert(v@.subrange(from as int, i + 1) == pre.push(c));
            lemma_value_grows(pre, c);
        }
        let d = (u - 48) as u64;
        if acc > 1_000_000_000_000_000_000 {
            acc = cap;
        } else {
            acc = acc * 10 + d;
            if acc > cap {
                acc = cap;
            }
        }
        i = i + 1;
    }
    assert(v@.subrange(from as int, n as int) == v@.skip(from as int));
    (true, acc)
}

/// Whether `v[at]` exists and is `c`.
fn char_at_is(v: &Vec<char>, at: usize, c: char) -> (r: bool)
    ensures
        r == (at < v@.len() && v@[at as int] == c),
{
    at < v.len() && v[at] == c
}

/// Parses `s` as a signed integer within `[lo, hi]`, as `str::parse` does
/// for the signed integer types.
fn parse_signed_within(s: &str, lo: i64, hi: i64) -> (r: Option<i64>)
    requires
        i64::MIN < lo <= 0 <= hi,
    ensures
        r == match signed_value(s@) {
            Some(v) => if lo <= v <= hi {
                Some(v as i64)
            } else {
                None::<i64>
            },
            None => None::<i64>,
        },
{
    let v = crate::text::chars_of(s);
    let neg = char_at_is(&v, 0, '-');
    let plus = char_at_is(&v, 0, '+');
    let from: usize = if neg || plus {
        1
    } else {
        0
    };
    let (ok, mag) = scan_digits(&v, from);
    proof {
        if from == 1 {
            assert(v@.skip(1) == v@.drop_first());
        } else {
            assert(v@.skip(0) == v@);
            if v@.len() > 0 {
                if all_digits(v@) {
                    assert(is_digit(v@[0]));
                }
            }
        }
    }
    if !ok {
        return None;
    }
    if neg {
        if mag > (-(lo as i128)) as u64 {
            None
        } else {
            Some(-(mag as i128) as i64)
        }
    } else {
        if mag > hi as u64 {
            None
        } else {
            Some(mag as i64)
        }
    }
}

/// `s.parse::<i32>().ok()`.
pub fn parse_i32(s: &str) -> (r: Option<i32>)
    ensures
        r == parse_i32_spec(s@),
{
    match parse_signed_within(s, i32::MIN as i64, i32::MAX as i64) {
        Some(x) => Some(x as i32),
        None => None,
    }
}

/// `s.parse::<u32>().ok()`.
pub fn parse_u32(s: &str) -> (r: Option<u32>)
    ensures
        r == parse_u32_spec(s@),
{
    let v = crate::text::chars_of(s);
    let plus = char_at_is(&v, 0, '+');
    let from: usize = if plus {
        1
    } else {
        0
    };
    let (ok, mag) = scan_digits(&v, from);
    proof {
        if from == 1 {
            assert(v@.skip(1) == v@.drop_first());
        } else {
            assert(v@.skip(0) == v@);
            if v@.len() > 0 && all_digits(v@) {
                assert(is_digit(v@[0]));
            }
        }
    }
    if !ok || mag > 4_294_967_295 {
        None
    } else {
        Some(mag as u32)
    }
}

} // verus!
