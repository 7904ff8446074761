use vstd::prelude::*;
use vstd::string::StrSliceExecFns;

verus! {

/// Value of an ASCII decimal digit character, if it is one.
pub open spec fn dec_digit(c: char) -> Option<nat> {
    if '0' <= c && c <= '9' {
        Some((c as int - '0' as int) as nat)
    } else {
        None
    }
}

/// Value of a run of decimal digits (most significant first); the empty run is 0.
pub open spec fn digits_value(d: Seq<char>) -> Option<nat>
    decreases d.len(),
{
    if d.len() == 0 {
        Some(0)
    } else {
        match (digits_value(d.drop_last()), dec_digit(d.last())) {
            (Some(v), Some(x)) => Some(10 * v + x),
            _ => None,
        }
    }
}

/// The integer written by `s` as Rust's `from_str` for integers reads it:
/// an optional sign (`-` only when `signed`), then at least one digit.
pub open spec fn int_text_value(s: Seq<char>, signed: bool) -> Option<int> {
    if s.len() == 0 {
        None
    } else if (s[0] == '+' || s[0] == '-') && s.len() == 1 {
        None
    } else if s[0] == '+' {
        match digits_value(s.skip(1)) {
            Some(v) => Some(v as int),
            None => None,
        }
    } else if s[0] == '-' && signed {
        match digits_value(s.skip(1)) {
            Some(v) => Some(-(v as int)),
            None => None,
        }
    } else {
        match digits_value(s) {
            Some(v) => Some(v as int),
            None => None,
        }
    }
}

/// `s.parse::<u8>()`.
pub open spec fn parse_u8_spec(s: Seq<char>) -> Option<u8> {
    match int_text_value(s, false) {
        Some(v) => if 0 <= v <= 255 { Some(v as u8) } else { None },
        None => None,
    }
}

/// `s.parse::<i32>()`.
pub open spec fn parse_i32_spec(s: Seq<char>) -> Option<i32> {
    match int_text_value(s, true) {
        Some(v) => if i32::MIN <= v <= i32::MAX { Some(v as i32) } else { None },
        None => None,
    }
}

/// `s.parse::<i64>()`.
pub open spec fn parse_i64_spec(s: Seq<char>) -> Option<i64> {
    match int_text_value(s, true) {
        Some(v) => if i64::MIN <= v <= i64::MAX { Some(v as i64) } else { None },
        None => None,
    }
}

/// A prefix of a run of digits has a value no larger than the whole run.
pub proof fn lemma_digits_prefix(d: Seq<char>, k: int)
    requires
        0 <= k <= d.len(),
        digits_value(d) is Some,
    ensures
        digits_value(d.take(k)) is Some,
        digits_value(d.take(k)).unwrap() <= digits_value(d).unwrap(),
    decreases d.len(),
{
    if k == d.len() {
        assert(d.take(k) =~= d);
    } else {
        lemma_digits_prefix(d.drop_last(), k);
        assert(d.drop_last().take(k) =~= d.take(k));
    }
}

pub(crate) fn char_digit(c: char) -> (r: Option<u64>)
    ensures
        match dec_digit(c) {
            Some(v) => r == Some(v as u64),
            None => r is None,
        },
{
    if '0' <= c && c <= '9' {
        Some((c as u32 - '0' as u32) as u64)
    } else {
        None
    }
}

/// Largest magnitude the digit reader keeps exact.
pub const DIGITS_CAP: u64 = 9_223_372_036_854_775_808;

/// Reads the digits of `s` from character `start` on. `None` when a
/// non-digit occurs or the value exceeds `DIGITS_CAP`.
fn read_digits(s: &str, start: usize) -> (r: Option<u64>)
    requires
        start <= s@.len(),
    ensures
        match r {
            Some(v) => digits_value(s@.skip(start as int)) == Some(v as nat) && v <= DIGITS_CAP,
            None => digits_value(s@.skip(start as int)) is None
                || digits_value(s@.skip(start as int)).unwrap() > DIGITS_CAP,
        },
{
    let n = s.unicode_len();
    let ghost d = s@.skip(start as int);
    let mut i = start;
    let mut acc: u64 = 0;
    assert(d.take(0) =~= Seq::<char>::empty());
    while i < n
        invariant
            n == s@.len(),
            start <= i <= n,
            d == s@.skip(start as int),
            digits_value(d.take(i - start)) == Some(acc as nat),
            acc <= DIGITS_CAP,
        decreases n - i,
    {
        let c = s.get_char(i);
        let ghost p = d.take(i + 1 - start);
        assert(p.drop_last() =~= d.take(i - start));
        assert(p.last() == c);
        match char_digit(c) {
            None => {
                proof {
                    if digits_value(d) is Some {
                        lemma_digits_prefix(d, i + 1 - start);
                    }
                }
                return None;
            },
            Some(x) => {
                if acc > (DIGITS_CAP - x) / 10 {
                    proof {
                        assert(10 * acc + x > DIGITS_CAP);
                        if digits_value(d) is Some {
                            lemma_digits_prefix(d, i + 1 - start);
                        }
                    }
                    return None;
                }
                acc = 10 * acc + x;
            },
        }
        i = i + 1;
    }
    assert(d.take(n - start) =~= d);
    Some(acc)
}

/// Reads a possibly signed integer; the magnitude is exact up to `DIGITS_CAP`.
/// Returns the sign (`true` for negative) and the magnitude.
fn read_int(s: &str, signed: bool) -> (r: Option<(bool, u64)>)
    ensures
        match r {
            Some((neg, m)) => int_text_value(s@, signed) == Some(if neg { -(m as int) } else { m as int })
                && m <= DIGITS_CAP && (neg ==> signed),
            None => int_text_value(s@, signed) is None || (match int_text_value(s@, signed) {
                Some(v) => v > DIGITS_CAP || v < -(DIGITS_CAP as int),
                None => true,
            }),
        },
{
    let n = s.unicode_len();
    if n == 0 {
        return None;
    }
    let c0 = s.get_char(0);
    if (c0 == '+' || c0 == '-') && n == 1 {
        return None;
    }
    if c0 == '+' {
        match read_digits(s, 1) {
            Some(m) => Some((false, m)),
            None => None,
        }
    } else if c0 == '-' && signed {
        match read_digits(s, 1) {
            Some(m) => Some((true, m)),
            None => None,
        }
    } else {
        assert(s@.skip(0) =~= s@);
        match read_digits(s, 0) {
            Some(m) => Some((false, m)),
            None => None,
        }
    }
}

/// Parses a `u8` as `str::parse::<u8>` does.
pub fn parse_u8(s: &str) -> (r: Option<u8>)
    ensures
        r == parse_u8_spec(s@),
{
    match read_int(s, false) {
        Some((neg, m)) => {
            if !neg && m <= 255 {
                Some(m as u8)
            } else {
                None
            }
        },
        None => None,
    }
}

/// Parses an `i64` as `str::parse::<i64>` does.
pub fn parse_i64(s: &str) -> (r: Option<i64>)
    ensures
        r == parse_i64_spec(s@),
{
    match read_int(s, true) {
        Some((neg, m)) => {
            if neg {
                if m == DIGITS_CAP {
                    Some(i64::MIN)
                } else {
                    Some(-(m as i64))
                }
            } else if m <= i64::MAX as u64 {
                Some(m as i64)
            } else {
                None
            }
        },
        None => None,
    }
}

/// Parses an `i32` as `str::parse::<i32>` does.
pub fn parse_i32(s: &str) -> (r: Option<i32>)
    ensures
        r == parse_i32_spec(s@),
{
    match read_int(s, true) {
        Some((neg, m)) => {
            if neg {
                if m <= 2_147_483_648 {
                    Some((0 - (m as i64)) as i32)
                } else {
                    None
                }
            } else if m <= 2_147_483_647 {
                Some(m as i32)
            } else {
                None
            }
        },
        None => None,
    }
}

} // verus!
