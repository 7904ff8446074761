use vstd::prelude::*;
use chrono::NaiveDateTime;
use crate::dispatch::{has_substring, str_contains};
use crate::filters::{push_signed, signed_decimal};
use crate::strbuf::push_char;

verus! {

/// Name for the Unix time, in seconds, of the date-time that
/// `NaiveDateTime::parse_from_str(text, fmt)` reads (taken as UTC), or
/// `None` when the text does not parse with that format.
pub uninterp spec fn naive_utc_seconds(text: Seq<char>, fmt: Seq<char>) -> Option<i64>;

/// Parses a date-time text (wraps chrono's `NaiveDateTime::parse_from_str`,
/// then `and_utc().timestamp()` on a success).
/// Trusted: the result is named, nothing more is claimed of it.
#[verifier::external_body]
fn parse_naive_utc(text: &str, fmt: &str) -> (res: Option<i64>)
    ensures
        res == naive_utc_seconds(text@, fmt@),
{
    match NaiveDateTime::parse_from_str(text, fmt) {
        Ok(t) => Some(t.and_utc().timestamp()),
        Err(_) => None,
    }
}

/// Age in seconds, at Unix time `now`, of a grant stamped at `stamp`
/// (never negative); an unreadable stamp counts as 999 seconds old.
pub open spec fn grant_age_spec(stamp: Option<i64>, now: i64) -> i64 {
    match stamp {
        Some(t) => if now - t <= 0 {
            0
        } else if now - t > i64::MAX {
            i64::MAX
        } else {
            (now - t) as i64
        },
        None => 999,
    }
}

/// The age of a grant from its parsed stamp.
pub fn age_from_stamp(stamp: Option<i64>, now: i64) -> (res: i64)
    ensures
        res == grant_age_spec(stamp, now),
{
    match stamp {
        Some(t) => {
            let d: i128 = now as i128 - t as i128;
            if d <= 0 {
                0
            } else if d > i64::MAX as i128 {
                i64::MAX
            } else {
                d as i64
            }
        },
        None => 999,
    }
}

/// Age in seconds of a grant whose time stamp reads `timestamp`
/// (`YYYY-MM-DD HH:MM:SS`, UTC), at Unix time `now`.
pub fn grant_age_secs(timestamp: &str, now: i64) -> (res: i64)
    ensures
        res == grant_age_spec(naive_utc_seconds(timestamp@, "%Y-%m-%d %H:%M:%S"@), now),
{
    let stamp = parse_naive_utc(timestamp, "%Y-%m-%d %H:%M:%S");
    age_from_stamp(stamp, now)
}

/// A grant younger than five seconds is live.
pub open spec fn grant_active_spec(age: i64) -> bool {
    age < 5
}

pub fn grant_is_active(age: i64) -> (res: bool)
    ensures
        res == grant_active_spec(age),
{
    age < 5
}

/// Opacity of a grant row: full while live, fading with age.
pub open spec fn grant_row_alpha_spec(age: i64) -> u8 {
    if age < 5 {
        255
    } else if age < 15 {
        200
    } else {
        140
    }
}

pub fn grant_row_alpha(age: i64) -> (res: u8)
    ensures
        res == grant_row_alpha_spec(age),
{
    if age < 5 {
        255
    } else if age < 15 {
        200
    } else {
        140
    }
}

/// `s` right-aligned in a field of `width` characters.
pub open spec fn pad_left(s: Seq<char>, width: nat) -> Seq<char> {
    if s.len() < width {
        Seq::new((width - s.len()) as nat, |i: int| ' ') + s
    } else {
        s
    }
}

/// The age column: a dot and the age in two places while live, else the
/// age in three places, then `s`.
pub open spec fn grant_age_text_spec(age: i64) -> Seq<char> {
    if grant_active_spec(age) {
        seq!['\u{25CF}'] + pad_left(signed_decimal(age as int), 2) + seq!['s']
    } else {
        pad_left(signed_decimal(age as int), 3) + seq!['s']
    }
}

pub fn grant_age_text(age: i64) -> (res: String)
    ensures
        res@ == grant_age_text_spec(age),
{
    let mut digits = String::new();
    push_signed(&mut digits, age);
    let width: usize = if age < 5 { 2 } else { 3 };
    let mut out = String::new();
    if age < 5 {
        push_char(&mut out, '\u{25CF}');
    }
    let ghost head = out@;
    let n = digits.as_str().unicode_len();
    let mut k: usize = n;
    while k < width
        invariant
            n == digits@.len(),
            n <= k <= width || (n > width && k == n),
            out@ == head + Seq::new((k - n) as nat, |i: int| ' '),
        decreases width - k,
    {
        push_char(&mut out, ' ');
        assert(out@ =~= head + Seq::new((k + 1 - n) as nat, |i: int| ' '));
        k = k + 1;
    }
    let ghost spaces = out@.skip(head.len() as int);
    assert(out@ =~= head + spaces);
    out.append(digits.as_str());
    push_char(&mut out, 's');
    proof {
        let w: nat = if age < 5 { 2 } else { 3 };
        assert(w == width);
        if n < width {
            assert(spaces =~= Seq::new((width - n) as nat, |i: int| ' '));
            assert(head + spaces + digits@ =~= head + pad_left(digits@, w));
        } else {
            assert(spaces =~= Seq::<char>::empty());
            assert(head + spaces + digits@ =~= head + pad_left(digits@, w));
        }
        if age < 5 {
            assert(head =~= seq!['\u{25CF}']);
        } else {
            assert(head =~= Seq::<char>::empty());
        }
        assert(out@ =~= grant_age_text_spec(age));
    }
    out
}

/// A grant is encrypted when its grant type mentions `encrypt`.
pub open spec fn grant_encrypted_spec(grant_type: Option<String>) -> bool {
    grant_type matches Some(t) && has_substring(t@, "encrypt"@)
}

pub fn grant_is_encrypted(grant_type: &Option<String>) -> (res: bool)
    ensures
        res == grant_encrypted_spec(*grant_type),
{
    match grant_type {
        Some(t) => str_contains(t.as_str(), "encrypt"),
        None => false,
    }
}

/// Kind column: `UNT` for unit-to-unit grants (type mentions `unit`), else `GRP`.
pub open spec fn grant_kind_spec(grant_type: Option<String>) -> Seq<char> {
    if grant_type matches Some(t) && has_substring(t@, "unit"@) {
        "UNT"@
    } else {
        "GRP"@
    }
}

pub fn grant_kind(grant_type: &Option<String>) -> (res: &'static str)
    ensures
        res@ == grant_kind_spec(*grant_type),
{
    match grant_type {
        Some(t) => {
            if str_contains(t.as_str(), "unit") {
                "UNT"
            } else {
                "GRP"
            }
        },
        None => "GRP",
    }
}

} // verus!
