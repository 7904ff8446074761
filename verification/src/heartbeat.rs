use vstd::prelude::*;
use vstd::string::StringSliceAdditionalSpecFns;
use vstd::utf8::{decode_utf8, encode_utf8, is_char_boundary};
use vstd::string::{StrSliceExecFns, StringExecFns};
use crate::palette::{color_text_sliceable, parse_color, parse_color_spec, Swatch, ThemeColor};
use crate::strbuf::str_eq;

verus! {

/// One entry of the heartbeat's `alert_highlights` array: its `color` and
/// `rule_name` members where they are strings.
pub struct AlertHighlight {
    pub color: Option<String>,
    pub rule_name: Option<String>,
}

/// The heartbeat's `alert_highlights`, `None` when it is absent or not an array.
pub type Highlights = Option<Vec<AlertHighlight>>;

/// Whether the heartbeat reports at least one active alert highlight.
pub fn has_active_alerts(highlights: &Highlights) -> (res: bool)
    ensures
        res == (highlights matches Some(v) && v@.len() > 0),
{
    match highlights {
        Some(v) => v.len() > 0,
        None => false,
    }
}

/// The rule name of the first highlight, or `ACTIVE`.
pub open spec fn alert_name_spec(highlights: Highlights) -> Seq<char> {
    match highlights {
        Some(v) => if v.len() > 0 && v[0].rule_name is Some { v[0].rule_name.unwrap()@ } else { "ACTIVE"@ },
        None => "ACTIVE"@,
    }
}

/// Name of the most recent alert highlight.
pub fn get_alert_name(highlights: &Highlights) -> (res: String)
    ensures
        res@ == alert_name_spec(*highlights),
{
    match highlights {
        Some(v) => {
            if v.len() > 0 {
                match &v[0].rule_name {
                    Some(n) => n.clone(),
                    None => String::from_str("ACTIVE"),
                }
            } else {
                String::from_str("ACTIVE")
            }
        },
        None => String::from_str("ACTIVE"),
    }
}

/// The highest-priority alert colour: the first highlight's colour, parsed.
pub fn get_alert_color(highlights: &Highlights) -> (res: Swatch)
    requires
        match highlights {
            Some(v) => v@.len() > 0 && v@[0].color is Some ==> color_text_sliceable(
                encode_utf8(v@[0].color.unwrap()@),
            ),
            None => true,
        },
    ensures
        match highlights {
            Some(v) => if v@.len() > 0 && v@[0].color is Some {
                res == parse_color_spec(v@[0].color.unwrap()@, encode_utf8(v@[0].color.unwrap()@))
            } else {
                res == Swatch::Rgb(255, 51, 51)
            },
            None => res == Swatch::Rgb(255, 51, 51),
        },
{
    match highlights {
        Some(v) => {
            if v.len() > 0 {
                match &v[0].color {
                    Some(c) => parse_color(c.as_str()),
                    None => default_alert_color(),
                }
            } else {
                default_alert_color()
            }
        },
        None => default_alert_color(),
    }
}

fn default_alert_color() -> (res: Swatch)
    ensures
        res == Swatch::Rgb(255, 51, 51),
{
    proof {
        reveal_strlit("#FF3333");
        broadcast use vstd::string::is_ascii_spec_bytes;
        assert(vstd::string::is_ascii("#FF3333"));
        let b = "#FF3333".spec_bytes();
        assert(b =~= seq![35u8, 70, 70, 51, 51, 51, 51]);
        assert(b.subrange(1, 3) =~= seq![70u8, 70]);
        assert(b.subrange(3, 5) =~= seq![51u8, 51]);
        assert(b.subrange(5, 7) =~= seq![51u8, 51]);
        reveal_with_fuel(crate::palette::hex_digits_value, 3);
        assert(seq![70u8, 70].drop_last() =~= seq![70u8]);
        assert(seq![51u8, 51].drop_last() =~= seq![51u8]);
        assert(seq![70u8].drop_last() =~= Seq::<u8>::empty());
        assert(seq![51u8].drop_last() =~= Seq::<u8>::empty());
    }
    parse_color("#FF3333")
}

/// Short label of an SDR slot role.
pub open spec fn sdr_role_short_spec(role: Seq<char>) -> Seq<char> {
    if role == "scan"@ {
        "SCN"@
    } else if role == "monitor"@ {
        "MON"@
    } else if role == "cc"@ || role == "control"@ {
        "CC"@
    } else if role == "voice"@ {
        "VOX"@
    } else if role == "idle"@ {
        "IDL"@
    } else if role == "failed"@ {
        "FAIL"@
    } else {
        role
    }
}

pub fn sdr_role_short(role: &str) -> (res: &str)
    ensures
        res@ == sdr_role_short_spec(role@),
{
    if str_eq(role, "scan") {
        "SCN"
    } else if str_eq(role, "monitor") {
        "MON"
    } else if str_eq(role, "cc") || str_eq(role, "control") {
        "CC"
    } else if str_eq(role, "voice") {
        "VOX"
    } else if str_eq(role, "idle") {
        "IDL"
    } else if str_eq(role, "failed") {
        "FAIL"
    } else {
        role
    }
}

/// Colour of an SDR slot: quarantine first, then liveness, then role.
pub open spec fn sdr_slot_color_spec(role: Seq<char>, alive: bool, quarantined: bool) -> Swatch {
    if quarantined {
        Swatch::Theme(ThemeColor::RedWatchdog)
    } else if !alive {
        Swatch::Theme(ThemeColor::TextSecondary)
    } else if role == "scan"@ {
        Swatch::Theme(ThemeColor::GreenCollect)
    } else if role == "monitor"@ || role == "voice"@ {
        Swatch::Theme(ThemeColor::CyanP25)
    } else if role == "cc"@ || role == "control"@ {
        Swatch::Theme(ThemeColor::MagentaExploit)
    } else {
        Swatch::Theme(ThemeColor::TextSecondary)
    }
}

pub fn sdr_slot_color(role: &str, alive: bool, quarantined: bool) -> (res: Swatch)
    ensures
        res == sdr_slot_color_spec(role@, alive, quarantined),
{
    if quarantined {
        Swatch::Theme(ThemeColor::RedWatchdog)
    } else if !alive {
        Swatch::Theme(ThemeColor::TextSecondary)
    } else if str_eq(role, "scan") {
        Swatch::Theme(ThemeColor::GreenCollect)
    } else if str_eq(role, "monitor") || str_eq(role, "voice") {
        Swatch::Theme(ThemeColor::CyanP25)
    } else if str_eq(role, "cc") || str_eq(role, "control") {
        Swatch::Theme(ThemeColor::MagentaExploit)
    } else {
        Swatch::Theme(ThemeColor::TextSecondary)
    }
}

} // verus!

verus! {

/// A slot's device name shortened to its first 8 bytes.
pub open spec fn sdr_short_name(name: Seq<char>) -> Seq<char> {
    if encode_utf8(name).len() > 8 {
        decode_utf8(encode_utf8(name).subrange(0, 8))
    } else {
        name
    }
}

/// Texts joined with commas.
pub open spec fn comma_joined(items: Seq<Seq<char>>) -> Seq<char>
    decreases items.len(),
{
    if items.len() == 0 {
        Seq::empty()
    } else if items.len() == 1 {
        items[0]
    } else {
        comma_joined(items.drop_last()) + ","@ + items.last()
    }
}

/// A slot's assigned bands in brackets, or nothing when it has none.
pub open spec fn bands_text(bands: Seq<Seq<char>>) -> Seq<char> {
    if bands.len() == 0 {
        Seq::empty()
    } else {
        "["@ + comma_joined(bands) + "]"@
    }
}

/// The compact status-bar entry of an SDR slot: `NAME:ROLE[BANDS]`.
pub open spec fn sdr_slot_label_spec(name: Seq<char>, role: Seq<char>, bands: Seq<Seq<char>>) -> Seq<char> {
    sdr_short_name(name) + ":"@ + sdr_role_short_spec(role) + bands_text(bands)
}

/// The name a slot is shown under: its user-given name when not empty,
/// else its label, else `SDR`.
pub open spec fn slot_name_spec(user_name: Option<Seq<char>>, label: Option<Seq<char>>) -> Seq<char> {
    match user_name {
        Some(u) => if u.len() > 0 {
            u
        } else {
            match label {
                Some(l) => l,
                None => "SDR"@,
            }
        },
        None => match label {
            Some(l) => l,
            None => "SDR"@,
        },
    }
}

pub fn slot_name<'a>(user_name: Option<&'a str>, label: Option<&'a str>) -> (res: &'a str)
    ensures
        res@ == slot_name_spec(
            match user_name { Some(u) => Some(u@), None => None },
            match label { Some(l) => Some(l@), None => None },
        ),
{
    match user_name {
        Some(u) => {
            if u.unicode_len() > 0 {
                return u;
            }
        },
        None => {},
    }
    match label {
        Some(l) => l,
        None => "SDR",
    }
}

pub fn sdr_slot_label(name: &str, role: &str, bands: &Vec<String>) -> (res: String)
    requires
        encode_utf8(name@).len() > 8 ==> is_char_boundary(encode_utf8(name@), 8),
    ensures
        res@ == sdr_slot_label_spec(name@, role@, bands@.map_values(|b: String| b@)),
{
    let short: &str = if name.as_bytes().len() > 8 {
        let (head, _) = name.split_at(8);
        proof {
            broadcast use vstd::utf8::encode_utf8_decode_utf8;
            assert(decode_utf8(encode_utf8(head@)) == head@);
            assert(encode_utf8(head@) == encode_utf8(name@).subrange(0, 8));
        }
        head
    } else {
        name
    };
    assert(short@ == sdr_short_name(name@));
    let ghost head_part = short@ + ":"@ + sdr_role_short_spec(role@);
    let mut s = String::from_str(short);
    s.append(":");
    s.append(sdr_role_short(role));
    let ghost texts = bands@.map_values(|b: String| b@);
    if bands.len() > 0 {
        s.append("[");
        let ghost before = s@;
        let mut i: usize = 0;
        while i < bands.len()
            invariant
                i <= bands@.len(),
                bands@.len() > 0,
                texts == bands@.map_values(|b: String| b@),
                s@ == before + comma_joined(texts.take(i as int)),
            decreases bands@.len() - i,
        {
            assert(texts.take(i + 1).drop_last() =~= texts.take(i as int));
            assert(texts.take(i + 1).last() == bands@[i as int]@);
            if i > 0 {
                s.append(",");
            }
            s.append(bands[i].as_str());
            proof {
                if i == 0 {
                    assert(comma_joined(texts.take(0)) == Seq::<char>::empty());
                    assert(comma_joined(texts.take(1)) == texts.take(1)[0]);
                }
            }
            assert(s@ =~= before + comma_joined(texts.take(i + 1)));
            i = i + 1;
        }
        assert(texts.take(bands@.len() as int) =~= texts);
        s.append("]");
    }
    assert(s@ =~= head_part + bands_text(texts));
    s
}

} // verus!
