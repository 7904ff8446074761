use vstd::prelude::*;
use vstd::string::{StrSliceExecFns, StringExecFns, StringSliceAdditionalSpecFns};
use crate::strbuf::{decimal, digit_char, digit_to_char, push_char, push_decimal};
use vstd::utf8::{decode_utf8, encode_utf8, is_char_boundary};

verus! {

/// Decimal text of `n` with a comma between each group of three digits.
pub open spec fn grouped(n: nat) -> Seq<char>
    decreases n,
{
    if n < 1000 {
        decimal(n)
    } else {
        grouped(n / 1000).push(',') + pad3(n % 1000)
    }
}

/// Three-digit zero-padded decimal text of `n < 1000`.
pub open spec fn pad3(n: nat) -> Seq<char> {
    seq![digit_char((n / 100) as int), digit_char(((n / 10) % 10) as int), digit_char((n % 10) as int)]
}

fn push_grouped(s: &mut String, n: u64)
    ensures
        final(s)@ == old(s)@ + grouped(n as nat),
    decreases n,
{
    if n < 1000 {
        push_decimal(s, n);
    } else {
        push_grouped(s, n / 1000);
        push_char(s, ',');
        let r = n % 1000;
        push_char(s, digit_to_char(r / 100));
        push_char(s, digit_to_char((r / 10) % 10));
        push_char(s, digit_to_char(r % 10));
    }
}

/// Formats a count with thousands separators: `1234567` gives `1,234,567`.
pub fn format_count(n: u64) -> (res: String)
    ensures
        res@ == grouped(n as nat),
{
    let mut s = String::new();
    push_grouped(&mut s, n);
    s
}


/// `s` without its commas.
pub open spec fn strip_commas(s: Seq<char>) -> Seq<char>
    decreases s.len(),
{
    if s.len() == 0 {
        s
    } else if s.last() == ',' {
        strip_commas(s.drop_last())
    } else {
        strip_commas(s.drop_last()).push(s.last())
    }
}

proof fn lemma_strip_concat(a: Seq<char>, b: Seq<char>)
    ensures
        strip_commas(a + b) == strip_commas(a) + strip_commas(b),
    decreases b.len(),
{
    if b.len() == 0 {
        assert(a + b =~= a);
        assert(strip_commas(a) + strip_commas(b) =~= strip_commas(a));
    } else {
        lemma_strip_concat(a, b.drop_last());
        assert((a + b).drop_last() =~= a + b.drop_last());
        assert((a + b).last() == b.last());
        if b.last() != ',' {
            assert(strip_commas(a) + strip_commas(b.drop_last()).push(b.last())
                =~= (strip_commas(a) + strip_commas(b.drop_last())).push(b.last()));
        }
    }
}

proof fn lemma_digit_not_comma(d: int)
    requires
        0 <= d < 10,
    ensures
        digit_char(d) != ',',
{
    assert('0' <= digit_char(d) && digit_char(d) <= '9');
}

proof fn lemma_decimal_has_no_comma(n: nat)
    ensures
        strip_commas(decimal(n)) == decimal(n),
    decreases n,
{
    lemma_digit_not_comma((n % 10) as int);
    if n >= 10 {
        lemma_decimal_has_no_comma(n / 10);
        assert(decimal(n).drop_last() =~= decimal(n / 10));
    } else {
        assert(decimal(n).drop_last() =~= Seq::<char>::empty());
        assert(strip_commas(Seq::<char>::empty()) == Seq::<char>::empty());
        assert(strip_commas(decimal(n)) =~= decimal(n));
    }
}

proof fn lemma_decimal_split(n: nat)
    requires
        n >= 1000,
    ensures
        decimal(n) == decimal(n / 1000) + pad3(n % 1000),
{
    let r = n % 1000;
    assert((n / 10) / 10 == n / 100) by (nonlinear_arith)
        requires
            n >= 0,
    ;
    assert((n / 100) / 10 == n / 1000) by (nonlinear_arith)
        requires
            n >= 0,
    ;
    assert(r / 100 == (n / 100) % 10) by (nonlinear_arith)
        requires
            r == n % 1000,
            n >= 0,
    ;
    assert((r / 10) % 10 == (n / 10) % 10) by (nonlinear_arith)
        requires
            r == n % 1000,
            n >= 0,
    ;
    assert(r % 10 == n % 10) by (nonlinear_arith)
        requires
            r == n % 1000,
            n >= 0,
    ;
    assert(n / 10 >= 100);
    assert(n / 100 >= 10);
    assert(decimal(n) == decimal(n / 10).push(digit_char((n % 10) as int)));
    assert(decimal((n / 10) as nat) == decimal(n / 100).push(digit_char(((n / 10) % 10) as int)));
    assert(decimal((n / 100) as nat) == decimal(n / 1000).push(digit_char(((n / 100) % 10) as int)));
    assert(decimal(n) =~= decimal(n / 1000) + pad3(r));
}

proof fn lemma_pad3_has_no_comma(r: nat)
    requires
        r < 1000,
    ensures
        strip_commas(pad3(r)) == pad3(r),
{
    let p = pad3(r);
    lemma_digit_not_comma((r / 100) as int);
    lemma_digit_not_comma(((r / 10) % 10) as int);
    lemma_digit_not_comma((r % 10) as int);
    let p1 = seq![p[0]];
    let p2 = seq![p[0], p[1]];
    assert(p1.drop_last() =~= Seq::<char>::empty());
    assert(strip_commas(Seq::<char>::empty()) == Seq::<char>::empty());
    assert(strip_commas(p1) =~= p1);
    assert(p2.drop_last() =~= p1);
    assert(strip_commas(p2) =~= p2);
    assert(p.drop_last() =~= p2);
    assert(strip_commas(p) =~= p);
}
/// The separators are all `format_count` adds: removing the commas from its
/// text gives the plain decimal digits of the count.
pub proof fn law_grouping_keeps_digits(n: nat)
    ensures
        strip_commas(grouped(n)) == decimal(n),
    decreases n,
{
    if n < 1000 {
        lemma_decimal_has_no_comma(n);
    } else {
        law_grouping_keeps_digits(n / 1000);
        let g = grouped(n / 1000);
        lemma_strip_concat(g.push(','), pad3(n % 1000));
        assert(g.push(',').drop_last() =~= g);
        lemma_pad3_has_no_comma(n % 1000);
        lemma_decimal_split(n);
    }
}


/// Whether `s` is a run of one to three digits followed by any number of
/// groups of a comma and exactly three digits.
pub open spec fn comma_grouped(s: Seq<char>) -> bool
    decreases s.len(),
{
    if s.len() <= 3 {
        1 <= s.len() && all_digits(s)
    } else {
        &&& s[s.len() - 4] == ','
        &&& all_digits(s.subrange(s.len() - 3, s.len() as int))
        &&& comma_grouped(s.subrange(0, s.len() - 4))
    }
}

/// Whether every character of `s` is an ASCII digit.
pub open spec fn all_digits(s: Seq<char>) -> bool {
    forall|i: int| 0 <= i < s.len() ==> '0' <= #[trigger] s[i] && s[i] <= '9'
}

proof fn lemma_digit_is_digit(d: int)
    requires
        0 <= d < 10,
    ensures
        '0' <= digit_char(d) && digit_char(d) <= '9',
{
}

proof fn lemma_small_decimal(n: nat)
    requires
        n < 1000,
    ensures
        1 <= decimal(n).len() <= 3,
        all_digits(decimal(n)),
{
    lemma_digit_is_digit((n % 10) as int);
    if n >= 10 {
        lemma_digit_is_digit(((n / 10) % 10) as int);
        assert(decimal(n) == decimal(n / 10).push(digit_char((n % 10) as int)));
        if n / 10 >= 10 {
            lemma_digit_is_digit((n / 100) as int);
            assert(n / 10 / 10 == n / 100);
            assert(decimal((n / 10) as nat) == decimal(n / 100).push(digit_char(((n / 10) % 10) as int)));
            assert(n / 100 < 10);
            assert(decimal(n / 100) == seq![digit_char((n / 100) as int)]);
        } else {
            assert(decimal((n / 10) as nat) == seq![digit_char(((n / 10) % 10) as int)]);
        }
    }
}

/// Commas separate thousands: the text of `format_count` is one to three
/// digits followed by groups of a comma and exactly three digits.
pub proof fn law_grouping_in_threes(n: nat)
    ensures
        comma_grouped(grouped(n)),
    decreases n,
{
    if n < 1000 {
        lemma_small_decimal(n);
    } else {
        law_grouping_in_threes(n / 1000);
        let g = grouped(n / 1000);
        let r = n % 1000;
        let s = grouped(n);
        assert(s == g.push(',') + pad3(r));
        assert(g.len() >= 1);
        lemma_digit_is_digit((r / 100) as int);
        lemma_digit_is_digit(((r / 10) % 10) as int);
        lemma_digit_is_digit((r % 10) as int);
        assert(s.subrange(s.len() - 3, s.len() as int) =~= pad3(r));
        assert(s.subrange(0, s.len() - 4) =~= g);
        assert(s[s.len() - 4] == ',');
    }
}
} // verus!

verus! {

/// Compact duration text: seconds below a minute, whole minutes below an
/// hour, whole hours below a day, whole days otherwise (`45s`, `2m`, `3h`, `2d`).
pub open spec fn duration_text(secs: nat) -> Seq<char> {
    if secs < 60 {
        decimal(secs) + "s"@
    } else if secs < 3600 {
        decimal(secs / 60) + "m"@
    } else if secs < 86400 {
        decimal(secs / 3600) + "h"@
    } else {
        decimal(secs / 86400) + "d"@
    }
}

fn push_duration(s: &mut String, secs: u64)
    ensures
        final(s)@ == old(s)@ + duration_text(secs as nat),
{
    if secs < 60 {
        push_decimal(s, secs);
        s.append("s");
    } else if secs < 3600 {
        push_decimal(s, secs / 60);
        s.append("m");
    } else if secs < 86400 {
        push_decimal(s, secs / 3600);
        s.append("h");
    } else {
        push_decimal(s, secs / 86400);
        s.append("d");
    }
}

/// Formats a duration given in whole seconds, as rule windows are shown.
pub fn format_duration(secs: u64) -> (res: String)
    ensures
        res@ == duration_text(secs as nat),
{
    let mut s = String::new();
    push_duration(&mut s, secs);
    s
}

/// Age text of an event stamped `ns` when the clock reads `now_ns`
/// (both in nanoseconds); a stamp in the future counts as age zero.
pub open spec fn age_text(ns: nat, now_ns: nat) -> Seq<char> {
    let delta: nat = if now_ns >= ns { ((now_ns - ns) as nat) / 1_000_000_000 } else { 0 };
    duration_text(delta) + " ago"@
}

/// Formats how long ago a nanosecond timestamp was, e.g. `5m ago`.
pub fn format_age_ns(ns: u64, now_ns: u64) -> (res: String)
    ensures
        res@ == age_text(ns as nat, now_ns as nat),
{
    let delta = now_ns.saturating_sub(ns) / 1_000_000_000;
    let mut s = String::new();
    push_duration(&mut s, delta);
    s.append(" ago");
    s
}

/// The first `max` characters of `s` (all of `s` when it is shorter).
pub open spec fn truncate_spec(s: Seq<char>, max: nat) -> Seq<char> {
    if s.len() > max {
        s.take(max as int)
    } else {
        s
    }
}

/// Cuts a string to at most `max` characters (never inside a character).
pub fn truncate_str(s: &str, max: usize) -> (res: &str)
    ensures
        res@ == truncate_spec(s@, max as nat),
{
    let n = s.unicode_len();
    if n > max {
        s.substring_char(0, max)
    } else {
        s
    }
}

/// The first `n` bytes of `s` when they end on a character boundary, else
/// all of `s` (what `s.get(..n).unwrap_or(s)` gives, used to shorten stamps).
pub open spec fn byte_prefix_spec(s: Seq<char>, n: nat) -> Seq<char> {
    if is_char_boundary(encode_utf8(s), n as int) {
        decode_utf8(encode_utf8(s).subrange(0, n as int))
    } else {
        s
    }
}

pub fn byte_prefix(s: &str, n: usize) -> (res: &str)
    ensures
        res@ == byte_prefix_spec(s@, n as nat),
{
    if s.is_char_boundary(n) {
        let (head, _) = s.split_at(n);
        proof {
            broadcast use vstd::utf8::encode_utf8_decode_utf8;
            assert(decode_utf8(encode_utf8(head@)) == head@);
        }
        head
    } else {
        s
    }
}

/// A text cell of a query result: a text over 80 bytes long is cut to its
/// first 77 characters followed by `...`.
pub open spec fn cell_text_spec(s: Seq<char>, byte_len: nat) -> Seq<char> {
    if byte_len > 80 {
        truncate_spec(s, 77) + "..."@
    } else {
        s
    }
}

pub fn cell_text(s: &str) -> (res: String)
    ensures
        res@ == cell_text_spec(s@, s.spec_bytes().len()),
{
    if s.as_bytes().len() > 80 {
        let n = s.unicode_len();
        let mut out = if n > 77 {
            String::from_str(s.substring_char(0, 77))
        } else {
            String::from_str(s)
        };
        out.append("...");
        out
    } else {
        String::from_str(s)
    }
}

} // verus!

verus! {

/// Two-digit zero-padded decimal text of `n < 100`.
pub open spec fn pad2(n: nat) -> Seq<char> {
    seq![digit_char((n / 10) as int), digit_char((n % 10) as int)]
}

/// `HH:MM:SS` text of a second within a day.
pub open spec fn clock_text(day_secs: nat) -> Seq<char> {
    pad2(day_secs / 3600) + ":"@ + pad2((day_secs % 3600) / 60) + ":"@ + pad2(day_secs % 60)
}

/// Name for the text chrono writes for the UTC instant `secs` seconds and
/// `nanos` nanoseconds after the epoch under the format `fmt`
/// (`DateTime::<Utc>::from_timestamp`, then `format`), or `None` when the
/// instant is outside chrono's calendar.
pub uninterp spec fn utc_format_text(secs: i64, nanos: u32, fmt: Seq<char>) -> Option<Seq<char>>;

/// Formats a UTC instant through chrono (`DateTime::<Utc>::from_timestamp`,
/// then `format(fmt).to_string()`). Only the three formats this library uses
/// are admitted (chrono panics on a format it cannot write).
/// Trusted: the result is named; for `%H:%M:%S` it is also stated: chrono's
/// source builds the time of day from `secs.rem_euclid(86_400)` and returns
/// `Some` whenever the day number fits its calendar (which every `secs` from
/// zero to 18_446_744_073 does), and `%H`, `%M`, `%S` are two-digit
/// zero-padded fields.
#[verifier::external_body]
pub(crate) fn format_utc(secs: i64, nanos: u32, fmt: &str) -> (res: Option<String>)
    requires
        fmt@ == "%H:%M:%S"@ || fmt@ == "%Y-%m-%d %H:%M:%S"@ || fmt@ == "%Y%m%d_%H%M%S"@,
    ensures
        match res {
            Some(t) => utc_format_text(secs, nanos, fmt@) == Some(t@),
            None => utc_format_text(secs, nanos, fmt@) is None,
        },
        fmt@ == "%H:%M:%S"@ && 0 <= secs <= 18_446_744_073 && nanos < 1_000_000_000 ==> (res is Some
            && res.unwrap()@ == clock_text((secs as nat) % 86400)),
{
    match chrono::DateTime::from_timestamp(secs, nanos) {
        Some(dt) => Some(dt.format(fmt).to_string()),
        None => None,
    }
}

/// The UTC date and time of Unix second `secs`, `YYYY-MM-DD HH:MM:SS`
/// (empty when chrono cannot write that instant).
pub open spec fn utc_stamp_spec(secs: i64) -> Seq<char> {
    match utc_format_text(secs, 0, "%Y-%m-%d %H:%M:%S"@) {
        Some(t) => t,
        None => Seq::empty(),
    }
}

pub fn utc_stamp(secs: i64) -> (res: String)
    ensures
        res@ == utc_stamp_spec(secs),
{
    match format_utc(secs, 0, "%Y-%m-%d %H:%M:%S") {
        Some(t) => t,
        None => String::new(),
    }
}

/// Formats a nanosecond UNIX timestamp as its UTC time of day, `HH:MM:SS`.
pub fn format_timestamp_ns(ns: u64) -> (res: String)
    ensures
        res@ == clock_text(((ns / 1_000_000_000) as nat) % 86400),
{
    let secs = (ns / 1_000_000_000) as i64;
    let millis = ((ns % 1_000_000_000) / 1_000_000) as u32;
    match format_utc(secs, millis * 1_000_000, "%H:%M:%S") {
        Some(t) => t,
        None => String::from_str("??:??:??"),
    }
}

} // verus!

verus! {

/// Spacing of the `f64` values around `b` (`b < 2^64`): 1 below 2^53, then
/// doubling with each power of two.
pub open spec fn f64_spacing(b: nat) -> nat {
    if b < 0x20_0000_0000_0000 {
        1
    } else if b < 0x40_0000_0000_0000 {
        2
    } else if b < 0x80_0000_0000_0000 {
        4
    } else if b < 0x100_0000_0000_0000 {
        8
    } else if b < 0x200_0000_0000_0000 {
        16
    } else if b < 0x400_0000_0000_0000 {
        32
    } else if b < 0x800_0000_0000_0000 {
        64
    } else if b < 0x1000_0000_0000_0000 {
        128
    } else if b < 0x2000_0000_0000_0000 {
        256
    } else if b < 0x4000_0000_0000_0000 {
        512
    } else if b < 0x8000_0000_0000_0000 {
        1024
    } else {
        2048
    }
}

/// `x / d` rounded to the nearest integer, ties to even.
pub open spec fn div_round_even(x: nat, d: nat) -> nat {
    let q = x / d;
    let r = x % d;
    if 2 * r > d || (2 * r == d && q % 2 == 1) { q + 1 } else { q }
}

/// `b as f64` for an integer `b < 2^64`: `b` rounded to a multiple of the
/// spacing, ties to even.
pub open spec fn as_f64(b: nat) -> nat {
    div_round_even(b, f64_spacing(b)) * f64_spacing(b)
}

/// Text of a tenths count with one decimal place, e.g. 15 gives `1.5`.
pub open spec fn tenths_text(t: nat) -> Seq<char> {
    decimal(t / 10) + "."@ + seq![digit_char((t % 10) as int)]
}

/// Size text: bytes below 1 KiB, else KB, MB or GB (powers of 1024) with one
/// decimal, as `{:.1}` prints the `f64` quotient (exact value, ties to even).
pub open spec fn size_text(bytes: nat) -> Seq<char> {
    if bytes >= 1_073_741_824 {
        tenths_text(div_round_even(10 * as_f64(bytes), 1_073_741_824)) + " GB"@
    } else if bytes >= 1_048_576 {
        tenths_text(div_round_even(10 * as_f64(bytes), 1_048_576)) + " MB"@
    } else if bytes >= 1024 {
        tenths_text(div_round_even(10 * as_f64(bytes), 1024)) + " KB"@
    } else {
        decimal(bytes) + " B"@
    }
}

fn spacing_of(b: u64) -> (s: u64)
    ensures
        s == f64_spacing(b as nat),
        1 <= s <= 2048,
{
    if b < 0x20_0000_0000_0000 {
        1
    } else if b < 0x40_0000_0000_0000 {
        2
    } else if b < 0x80_0000_0000_0000 {
        4
    } else if b < 0x100_0000_0000_0000 {
        8
    } else if b < 0x200_0000_0000_0000 {
        16
    } else if b < 0x400_0000_0000_0000 {
        32
    } else if b < 0x800_0000_0000_0000 {
        64
    } else if b < 0x1000_0000_0000_0000 {
        128
    } else if b < 0x2000_0000_0000_0000 {
        256
    } else if b < 0x4000_0000_0000_0000 {
        512
    } else if b < 0x8000_0000_0000_0000 {
        1024
    } else {
        2048
    }
}

fn round_div(x: u128, d: u128) -> (r: u128)
    requires
        1 <= d <= 0x1_0000_0000,
        x <= 0x10_0000_0000_0000_0000,
    ensures
        r == div_round_even(x as nat, d as nat),
        r <= x / d + 1,
{
    let q = x / d;
    let rem = x % d;
    if 2 * rem > d || (2 * rem == d && q % 2 == 1) {
        q + 1
    } else {
        q
    }
}

/// `bytes as f64`, as an exact integer.
fn f64_value(bytes: u64) -> (x: u128)
    ensures
        x == as_f64(bytes as nat),
        x <= 0x1_0000_0000_0000_0800,
{
    let s = spacing_of(bytes) as u128;
    let b = bytes as u128;
    let q = round_div(b, s);
    proof {
        vstd::arithmetic::div_mod::lemma_fundamental_div_mod(b as int, s as int);
        assert((b / s) * s <= b) by (nonlinear_arith)
            requires
                s >= 1,
                b == s * (b / s) + b % s,
                b % s >= 0;
        assert(q * s <= b + s) by (nonlinear_arith)
            requires
                q <= b / s + 1,
                (b / s) * s <= b,
                s >= 1;
    }
    q * s
}

fn push_tenths(out: &mut String, t: u64)
    ensures
        final(out)@ == old(out)@ + tenths_text(t as nat),
{
    push_decimal(out, t / 10);
    out.append(".");
    push_char(out, digit_to_char(t % 10));
}

fn push_scaled(out: &mut String, bytes: u64, unit: u128)
    requires
        1024 <= unit <= 1_073_741_824,
    ensures
        final(out)@ == old(out)@ + tenths_text(div_round_even(10 * as_f64(bytes as nat), unit as nat)),
{
    let x = f64_value(bytes);
    let t = round_div(10 * x, unit);
    proof {
        vstd::arithmetic::div_mod::lemma_div_is_ordered_by_denominator((10 * x) as int, 1024, unit as int);
        assert((10 * x) / 1024 <= 0x2800_0000_0000_0050);
    }
    push_tenths(out, t as u64);
}

/// Human-readable size of a byte count, e.g. `512 B`, `1.5 KB`, `2.0 GB`.
pub fn format_size(bytes: u64) -> (res: String)
    ensures
        res@ == size_text(bytes as nat),
{
    let mut s = String::new();
    if bytes >= 1_073_741_824 {
        push_scaled(&mut s, bytes, 1_073_741_824);
        s.append(" GB");
    } else if bytes >= 1_048_576 {
        push_scaled(&mut s, bytes, 1_048_576);
        s.append(" MB");
    } else if bytes >= 1024 {
        push_scaled(&mut s, bytes, 1024);
        s.append(" KB");
    } else {
        push_decimal(&mut s, bytes);
        s.append(" B");
    }
    s
}

} // verus!
