use vstd::prelude::*;
use crate::strbuf::{lowercase_of, str_eq, to_lowercase};
use vstd::string::StringSliceAdditionalSpecFns;

verus! {

/// Named colours of the console theme.
#[derive(Clone, Copy, Debug, PartialEq, Eq, Structural)]
pub enum ThemeColor {
    TextPrimary,
    TextSecondary,
    GreenCollect,
    CyanP25,
    MagentaExploit,
    BluePlan,
    AmberWarning,
    RedWatchdog,
    RedRecording,
}

/// A display colour: either a theme colour or an explicit RGB triple.
#[derive(Clone, Copy, Debug, PartialEq, Eq, Structural)]
pub enum Swatch {
    Theme(ThemeColor),
    Rgb(u8, u8, u8),
}

/// Colour of a scan band tab.
pub open spec fn band_color_spec(band: Seq<char>) -> Swatch {
    if band == "AM"@ {
        Swatch::Rgb(200, 160, 0)
    } else if band == "HF"@ {
        Swatch::Rgb(204, 102, 255)
    } else if band == "FM"@ {
        Swatch::Rgb(255, 0, 204)
    } else if band == "VHF"@ {
        Swatch::Rgb(51, 204, 51)
    } else if band == "FEDV"@ {
        Swatch::Rgb(255, 51, 51)
    } else if band == "BIII"@ {
        Swatch::Rgb(0, 204, 204)
    } else if band == "UHF"@ {
        Swatch::Rgb(102, 153, 255)
    } else if band == "GMRS"@ {
        Swatch::Rgb(204, 102, 255)
    } else if band == "P25"@ {
        Swatch::Rgb(0, 204, 255)
    } else {
        Swatch::Theme(ThemeColor::TextSecondary)
    }
}

pub fn band_color(band: &str) -> (res: Swatch)
    ensures
        res == band_color_spec(band@),
{
    if str_eq(band, "AM") {
        Swatch::Rgb(200, 160, 0)
    } else if str_eq(band, "HF") {
        Swatch::Rgb(204, 102, 255)
    } else if str_eq(band, "FM") {
        Swatch::Rgb(255, 0, 204)
    } else if str_eq(band, "VHF") {
        Swatch::Rgb(51, 204, 51)
    } else if str_eq(band, "FEDV") {
        Swatch::Rgb(255, 51, 51)
    } else if str_eq(band, "BIII") {
        Swatch::Rgb(0, 204, 204)
    } else if str_eq(band, "UHF") {
        Swatch::Rgb(102, 153, 255)
    } else if str_eq(band, "GMRS") {
        Swatch::Rgb(204, 102, 255)
    } else if str_eq(band, "P25") {
        Swatch::Rgb(0, 204, 255)
    } else {
        Swatch::Theme(ThemeColor::TextSecondary)
    }
}

/// Colour of a signal classification code.
pub open spec fn cls_color_spec(cls: Seq<char>) -> Swatch {
    if cls == "PUBS"@ {
        Swatch::Rgb(51, 204, 51)
    } else if cls == "AMAT"@ {
        Swatch::Rgb(102, 153, 255)
    } else if cls == "MARN"@ {
        Swatch::Rgb(0, 204, 204)
    } else if cls == "WX"@ {
        Swatch::Rgb(255, 153, 51)
    } else if cls == "GMRS"@ {
        Swatch::Rgb(204, 102, 255)
    } else if cls == "COMM"@ {
        Swatch::Rgb(212, 212, 212)
    } else if cls == "FEDL"@ {
        Swatch::Rgb(255, 51, 51)
    } else if cls == "BCST"@ {
        Swatch::Rgb(200, 160, 0)
    } else {
        Swatch::Rgb(88, 88, 88)
    }
}

pub fn cls_color(cls: &str) -> (res: Swatch)
    ensures
        res == cls_color_spec(cls@),
{
    if str_eq(cls, "PUBS") {
        Swatch::Rgb(51, 204, 51)
    } else if str_eq(cls, "AMAT") {
        Swatch::Rgb(102, 153, 255)
    } else if str_eq(cls, "MARN") {
        Swatch::Rgb(0, 204, 204)
    } else if str_eq(cls, "WX") {
        Swatch::Rgb(255, 153, 51)
    } else if str_eq(cls, "GMRS") {
        Swatch::Rgb(204, 102, 255)
    } else if str_eq(cls, "COMM") {
        Swatch::Rgb(212, 212, 212)
    } else if str_eq(cls, "FEDL") {
        Swatch::Rgb(255, 51, 51)
    } else if str_eq(cls, "BCST") {
        Swatch::Rgb(200, 160, 0)
    } else {
        Swatch::Rgb(88, 88, 88)
    }
}

/// Badge colour of a protocol event type.
pub open spec fn event_type_color_spec(t: Seq<char>) -> Swatch {
    if t == "p25"@ {
        Swatch::Theme(ThemeColor::CyanP25)
    } else if t == "tsbk"@ {
        Swatch::Rgb(100, 140, 200)
    } else if t == "rds"@ {
        Swatch::Theme(ThemeColor::MagentaExploit)
    } else if t == "cqpsk_status"@ {
        Swatch::Rgb(80, 80, 100)
    } else {
        Swatch::Theme(ThemeColor::TextSecondary)
    }
}

pub fn event_type_color(event_type: &str) -> (res: Swatch)
    ensures
        res == event_type_color_spec(event_type@),
{
    if str_eq(event_type, "p25") {
        Swatch::Theme(ThemeColor::CyanP25)
    } else if str_eq(event_type, "tsbk") {
        Swatch::Rgb(100, 140, 200)
    } else if str_eq(event_type, "rds") {
        Swatch::Theme(ThemeColor::MagentaExploit)
    } else if str_eq(event_type, "cqpsk_status") {
        Swatch::Rgb(80, 80, 100)
    } else {
        Swatch::Theme(ThemeColor::TextSecondary)
    }
}

/// Colour of a weather alert severity word.
pub open spec fn wx_severity_color_spec(sev: Seq<char>) -> Swatch {
    if sev == "Extreme"@ {
        Swatch::Theme(ThemeColor::RedWatchdog)
    } else if sev == "Severe"@ {
        Swatch::Rgb(255, 100, 40)
    } else if sev == "Moderate"@ {
        Swatch::Theme(ThemeColor::AmberWarning)
    } else if sev == "Minor"@ {
        Swatch::Rgb(200, 200, 60)
    } else {
        Swatch::Theme(ThemeColor::TextSecondary)
    }
}

pub fn wx_severity_color(severity: &str) -> (res: Swatch)
    ensures
        res == wx_severity_color_spec(severity@),
{
    if str_eq(severity, "Extreme") {
        Swatch::Theme(ThemeColor::RedWatchdog)
    } else if str_eq(severity, "Severe") {
        Swatch::Rgb(255, 100, 40)
    } else if str_eq(severity, "Moderate") {
        Swatch::Theme(ThemeColor::AmberWarning)
    } else if str_eq(severity, "Minor") {
        Swatch::Rgb(200, 200, 60)
    } else {
        Swatch::Theme(ThemeColor::TextSecondary)
    }
}

/// Colour of a raw event severity number (same ranges as the severity labels).
pub open spec fn severity_color_spec(sev: u8) -> Swatch {
    if sev <= 6 {
        Swatch::Theme(ThemeColor::TextSecondary)
    } else if sev <= 12 {
        Swatch::Theme(ThemeColor::TextPrimary)
    } else if sev <= 16 {
        Swatch::Theme(ThemeColor::AmberWarning)
    } else if sev <= 20 {
        Swatch::Theme(ThemeColor::RedWatchdog)
    } else {
        Swatch::Rgb(255, 50, 50)
    }
}

pub fn severity_color(sev: u8) -> (res: Swatch)
    ensures
        res == severity_color_spec(sev),
{
    if sev <= 6 {
        Swatch::Theme(ThemeColor::TextSecondary)
    } else if sev <= 12 {
        Swatch::Theme(ThemeColor::TextPrimary)
    } else if sev <= 16 {
        Swatch::Theme(ThemeColor::AmberWarning)
    } else if sev <= 20 {
        Swatch::Theme(ThemeColor::RedWatchdog)
    } else {
        Swatch::Rgb(255, 50, 50)
    }
}

/// Priority of an alert rule.
#[derive(Clone, Copy, Debug, PartialEq, Eq, Structural)]
pub enum AlertPriority {
    Low,
    Medium,
    High,
    Critical,
}

pub open spec fn priority_color_spec(p: AlertPriority) -> Swatch {
    match p {
        AlertPriority::Low => Swatch::Theme(ThemeColor::TextSecondary),
        AlertPriority::Medium => Swatch::Theme(ThemeColor::AmberWarning),
        AlertPriority::High => Swatch::Rgb(255, 120, 50),
        AlertPriority::Critical => Swatch::Theme(ThemeColor::RedWatchdog),
    }
}

pub fn priority_color(p: &AlertPriority) -> (res: Swatch)
    ensures
        res == priority_color_spec(*p),
{
    match p {
        AlertPriority::Low => Swatch::Theme(ThemeColor::TextSecondary),
        AlertPriority::Medium => Swatch::Theme(ThemeColor::AmberWarning),
        AlertPriority::High => Swatch::Rgb(255, 120, 50),
        AlertPriority::Critical => Swatch::Theme(ThemeColor::RedWatchdog),
    }
}

} // verus!

verus! {

/// Value of an ASCII hexadecimal digit byte, if it is one.
pub open spec fn hex_digit_value(b: u8) -> Option<nat> {
    if 48 <= b <= 57 {
        Some((b - 48) as nat)
    } else if 97 <= b <= 102 {
        Some((b - 87) as nat)
    } else if 65 <= b <= 70 {
        Some((b - 55) as nat)
    } else {
        None
    }
}

/// Value of a run of hexadecimal digit bytes (most significant first).
pub open spec fn hex_digits_value(d: Seq<u8>) -> Option<nat>
    decreases d.len(),
{
    if d.len() == 0 {
        Some(0)
    } else {
        match (hex_digits_value(d.drop_last()), hex_digit_value(d.last())) {
            (Some(v), Some(x)) => Some(16 * v + x),
            _ => None,
        }
    }
}

/// `u8::from_str_radix(text, 16)` on the bytes of `text`: an optional `+`,
/// then at least one hexadecimal digit, the value at most 255.
pub open spec fn parse_hex_u8(b: Seq<u8>) -> Option<u8> {
    let digits = if b.len() > 1 && b[0] == 43 { b.skip(1) } else { b };
    if b.len() == 0 {
        None
    } else {
        match hex_digits_value(digits) {
            Some(v) => if v <= 255 { Some(v as u8) } else { None },
            None => None,
        }
    }
}

fn hex_digit(b: u8) -> (r: Option<u8>)
    ensures
        match hex_digit_value(b) {
            Some(v) => r == Some(v as u8),
            None => r is None,
        },
{
    if 48 <= b && b <= 57 {
        Some(b - 48)
    } else if 97 <= b && b <= 102 {
        Some(b - 87)
    } else if 65 <= b && b <= 70 {
        Some(b - 55)
    } else {
        None
    }
}

/// Parses the two bytes `b0 b1` as `u8::from_str_radix` does with radix 16.
fn parse_hex_pair(b0: u8, b1: u8) -> (r: Option<u8>)
    ensures
        r == parse_hex_u8(seq![b0, b1]),
{
    let ghost b = seq![b0, b1];
    assert(b.drop_last() == seq![b0]);
    assert(seq![b0].drop_last() == Seq::<u8>::empty());
    assert(b.skip(1) == seq![b1]);
    assert(seq![b1].drop_last() == Seq::<u8>::empty());
    assert(hex_digits_value(Seq::<u8>::empty()) == Some(0nat));
    assert(hex_digits_value(seq![b0]) == match hex_digit_value(b0) {
        Some(x) => Some(x),
        None => None::<nat>,
    });
    assert(hex_digits_value(seq![b1]) == match hex_digit_value(b1) {
        Some(x) => Some(x),
        None => None::<nat>,
    });
    if b0 == 43 {
        match hex_digit(b1) {
            Some(x) => Some(x),
            None => None,
        }
    } else {
        match (hex_digit(b0), hex_digit(b1)) {
            (Some(h), Some(l)) => Some(16 * h + l),
            _ => None,
        }
    }
}

/// Whether a byte begins a UTF-8 character (is not a continuation byte).
pub open spec fn starts_char(b: u8) -> bool {
    b < 128 || b >= 192
}

/// Colour named by a CSS-style `#rrggbb` text or a colour word. A hex text
/// is seven bytes starting with `#`; a component that does not parse falls
/// back to 255, 51, 51 respectively. Colour words are matched lower-cased.
pub open spec fn parse_color_spec(s: Seq<char>, b: Seq<u8>) -> Swatch {
    if b.len() == 7 && b[0] == 35 {
        let r = match parse_hex_u8(b.subrange(1, 3)) { Some(v) => v, None => 255u8 };
        let g = match parse_hex_u8(b.subrange(3, 5)) { Some(v) => v, None => 51u8 };
        let bl = match parse_hex_u8(b.subrange(5, 7)) { Some(v) => v, None => 51u8 };
        Swatch::Rgb(r, g, bl)
    } else {
        let w = lowercase_of(s);
        if w == "red"@ {
            Swatch::Theme(ThemeColor::RedWatchdog)
        } else if w == "amber"@ || w == "orange"@ || w == "yellow"@ {
            Swatch::Theme(ThemeColor::AmberWarning)
        } else if w == "green"@ {
            Swatch::Theme(ThemeColor::GreenCollect)
        } else if w == "blue"@ || w == "cyan"@ {
            Swatch::Theme(ThemeColor::CyanP25)
        } else if w == "magenta"@ || w == "pink"@ {
            Swatch::Theme(ThemeColor::MagentaExploit)
        } else {
            Swatch::Theme(ThemeColor::RedWatchdog)
        }
    }
}

/// What `parse_color` needs to read a hex text without splitting a character.
pub open spec fn color_text_sliceable(b: Seq<u8>) -> bool {
    b.len() == 7 && b[0] == 35 ==> starts_char(b[3]) && starts_char(b[5])
}

/// Parses a colour given as `#rrggbb` or as a colour word.
pub fn parse_color(s: &str) -> (res: Swatch)
    requires
        color_text_sliceable(s.spec_bytes()),
    ensures
        res == parse_color_spec(s@, s.spec_bytes()),
{
    let b = s.as_bytes();
    if b.len() == 7 && b[0] == 35 {
        assert(b@.subrange(1, 3) == seq![b@[1], b@[2]]);
        assert(b@.subrange(3, 5) == seq![b@[3], b@[4]]);
        assert(b@.subrange(5, 7) == seq![b@[5], b@[6]]);
        let r = match parse_hex_pair(b[1], b[2]) { Some(v) => v, None => 255 };
        let g = match parse_hex_pair(b[3], b[4]) { Some(v) => v, None => 51 };
        let bl = match parse_hex_pair(b[5], b[6]) { Some(v) => v, None => 51 };
        Swatch::Rgb(r, g, bl)
    } else {
        let lower = to_lowercase(s);
        let w = lower.as_str();
        if str_eq(w, "red") {
            Swatch::Theme(ThemeColor::RedWatchdog)
        } else if str_eq(w, "amber") || str_eq(w, "orange") || str_eq(w, "yellow") {
            Swatch::Theme(ThemeColor::AmberWarning)
        } else if str_eq(w, "green") {
            Swatch::Theme(ThemeColor::GreenCollect)
        } else if str_eq(w, "blue") || str_eq(w, "cyan") {
            Swatch::Theme(ThemeColor::CyanP25)
        } else if str_eq(w, "magenta") || str_eq(w, "pink") {
            Swatch::Theme(ThemeColor::MagentaExploit)
        } else {
            Swatch::Theme(ThemeColor::RedWatchdog)
        }
    }
}

} // verus!
