use vstd::prelude::*;
use vstd::string::{StrSliceExecFns, StringExecFns};
use std::collections::HashMap;
use crate::strbuf::{decimal, lowercase_of, push_char, push_decimal, str_eq, to_lowercase};

verus! {

broadcast use vstd::std_specs::hash::group_hash_axioms;

/// A decoded protocol event from the live dispatch log.
pub struct ProtocolEvent {
    pub event_type: String,
    pub talkgroup: Option<u32>,
    pub source_unit: Option<u32>,
    pub encrypted: Option<bool>,
    pub opcode: Option<String>,
    pub rds_ps: Option<String>,
    pub rds_pi: Option<u16>,
}

/// Upper-case hexadecimal digit character.
pub open spec fn hex_char(d: int) -> char {
    if d < 10 { (d + 48) as char } else { (d + 55) as char }
}

/// Four upper-case hexadecimal digits (`{:04X}` of a 16-bit value).
pub open spec fn hex4(p: u16) -> Seq<char> {
    seq![
        hex_char((p / 4096) as int),
        hex_char(((p / 256) % 16) as int),
        hex_char(((p / 16) % 16) as int),
        hex_char((p % 16) as int),
    ]
}

/// Talkgroup text: its number, or `--`.
pub open spec fn tg_text(t: Option<u32>) -> Seq<char> {
    match t {
        Some(x) => decimal(x as nat),
        None => "--"@,
    }
}

/// Known name of a talkgroup, or empty.
pub open spec fn tg_name(names: Map<u32, String>, t: Option<u32>) -> Seq<char> {
    match t {
        Some(x) => if names.contains_key(x) { names[x]@ } else { Seq::empty() },
        None => Seq::empty(),
    }
}

/// `text` followed by the number when there is one, else nothing.
pub open spec fn tagged(text: Seq<char>, n: Option<u32>) -> Seq<char> {
    match n {
        Some(x) => text + decimal(x as nat),
        None => Seq::empty(),
    }
}

/// One-line summary of a dispatch event.
pub open spec fn event_summary_spec(e: ProtocolEvent, names: Map<u32, String>) -> Seq<char> {
    let t = e.event_type@;
    if t == "p25"@ {
        let name = tg_name(names, e.talkgroup);
        let uid = tagged("UID:"@, e.source_unit);
        let enc = if e.encrypted == Some(true) { " ENC"@ } else { Seq::empty() };
        if name.len() == 0 {
            "TG:"@ + tg_text(e.talkgroup) + " "@ + uid + enc
        } else {
            "TG:"@ + tg_text(e.talkgroup) + " ("@ + name + ") "@ + uid + enc
        }
    } else if t == "tsbk"@ {
        let op = match e.opcode { Some(o) => o@, None => "??"@ };
        op + tagged(" TG:"@, e.talkgroup) + tagged(" UID:"@, e.source_unit)
    } else if t == "rds"@ {
        let ps = match e.rds_ps { Some(p) => p@, None => "--"@ };
        ps + match e.rds_pi { Some(p) => " PI:"@ + hex4(p), None => Seq::empty() }
    } else {
        t
    }
}

fn hex_digit_char(d: u16) -> (c: char)
    requires
        d < 16,
    ensures
        c == hex_char(d as int),
{
    match d {
        0 => '0',
        1 => '1',
        2 => '2',
        3 => '3',
        4 => '4',
        5 => '5',
        6 => '6',
        7 => '7',
        8 => '8',
        9 => '9',
        10 => 'A',
        11 => 'B',
        12 => 'C',
        13 => 'D',
        14 => 'E',
        _ => 'F',
    }
}

fn push_tagged(s: &mut String, text: &str, n: Option<u32>)
    ensures
        final(s)@ == old(s)@ + tagged(text@, n),
{
    match n {
        Some(x) => {
            s.append(text);
            push_decimal(s, x as u64);
        },
        None => {
            assert(old(s)@ + Seq::<char>::empty() =~= old(s)@);
        },
    }
}

/// Looks up a talkgroup's name.
fn lookup<'a>(names: &'a HashMap<u32, String>, t: u32) -> (res: Option<&'a String>)
    ensures
        match res {
            Some(v) => names@.contains_key(t) && names@[t] == *v,
            None => !names@.contains_key(t),
        },
{
    names.get(&t)
}

/// One-line summary of a dispatch event: talkgroup (with its known name),
/// unit and encryption for P25; opcode, talkgroup and unit for TSBK;
/// programme service name and PI code for RDS; else the event type.
pub fn event_summary(evt: &ProtocolEvent, tg_names: &HashMap<u32, String>) -> (res: String)
    ensures
        res@ == event_summary_spec(*evt, tg_names@),
{
    let t = evt.event_type.as_str();
    let mut s = String::new();
    if str_eq(t, "p25") {
        proof {
            reveal_strlit("");
        }
        let name: &str = match evt.talkgroup {
            Some(x) => match lookup(tg_names, x) {
                Some(n) => n.as_str(),
                None => "",
            },
            None => "",
        };
        assert(name@ =~= tg_name(tg_names@, evt.talkgroup));
        s.append("TG:");
        match evt.talkgroup {
            Some(x) => push_decimal(&mut s, x as u64),
            None => s.append("--"),
        }
        if name.unicode_len() == 0 {
            s.append(" ");
        } else {
            s.append(" (");
            s.append(name);
            s.append(") ");
        }
        push_tagged(&mut s, "UID:", evt.source_unit);
        if evt.encrypted == Some(true) {
            s.append(" ENC");
        } else {
            assert(s@ =~= s@ + Seq::<char>::empty());
        }
    } else if str_eq(t, "tsbk") {
        match &evt.opcode {
            Some(o) => s.append(o.as_str()),
            None => s.append("??"),
        }
        push_tagged(&mut s, " TG:", evt.talkgroup);
        push_tagged(&mut s, " UID:", evt.source_unit);
    } else if str_eq(t, "rds") {
        match &evt.rds_ps {
            Some(p) => s.append(p.as_str()),
            None => s.append("--"),
        }
        match evt.rds_pi {
            Some(p) => {
                s.append(" PI:");
                push_char(&mut s, hex_digit_char(p / 4096));
                push_char(&mut s, hex_digit_char((p / 256) % 16));
                push_char(&mut s, hex_digit_char((p / 16) % 16));
                push_char(&mut s, hex_digit_char(p % 16));
            },
            None => {
                assert(s@ =~= s@ + Seq::<char>::empty());
            },
        }
    } else {
        s.append(t);
    }
    s
}

} // verus!

verus! {

/// Whether `sub` occurs in `s` (every text holds the empty text).
pub open spec fn has_substring(s: Seq<char>, sub: Seq<char>) -> bool {
    exists|i: int| 0 <= i <= s.len() - sub.len() && #[trigger] s.subrange(i, i + sub.len()) == sub
}

pub(crate) fn chars_of(s: &str) -> (v: Vec<char>)
    ensures
        v@ == s@,
{
    let n = s.unicode_len();
    let mut v: Vec<char> = Vec::new();
    let mut i: usize = 0;
    while i < n
        invariant
            n == s@.len(),
            i <= n,
            v@ == s@.take(i as int),
        decreases n - i,
    {
        v.push(s.get_char(i));
        assert(s@.take(i + 1) =~= s@.take(i as int).push(s@[i as int]));
        i = i + 1;
    }
    assert(s@.take(n as int) =~= s@);
    v
}

/// Whether `sub` occurs in `s` (as `str::contains` with a string pattern).
pub fn str_contains(s: &str, sub: &str) -> (r: bool)
    ensures
        r == has_substring(s@, sub@),
{
    let a = chars_of(s);
    let b = chars_of(sub);
    if b.len() > a.len() {
        return false;
    }
    let mut i: usize = 0;
    while i <= a.len() - b.len()
        invariant
            a@ == s@,
            b@ == sub@,
            b@.len() <= a@.len(),
            i <= a@.len() - b@.len() + 1,
            forall|k: int| 0 <= k < i ==> #[trigger] a@.subrange(k, k + b@.len()) != b@,
        decreases a@.len() - b@.len() + 1 - i,
    {
        let mut j: usize = 0;
        let mut same = true;
        while j < b.len()
            invariant
                i + b@.len() <= a@.len(),
                a@.len() == a.len(),
                b@.len() == b.len(),
                j <= b@.len(),
                same == (forall|m: int| 0 <= m < j ==> a@[i + m] == b@[m]),
            decreases b@.len() - j,
        {
            assert(i + j < a@.len());
            if a[i + j] != b[j] {
                same = false;
            }
            j = j + 1;
        }
        if same {
            assert(a@.subrange(i as int, i + b@.len()) =~= b@);
            return true;
        }
        assert(a@.subrange(i as int, i + b@.len()) != b@) by {
            let m = choose|m: int| 0 <= m < b@.len() && a@[i + m] != b@[m];
            assert(a@.subrange(i as int, i + b@.len())[m] == a@[i + m]);
        }
        i = i + 1;
    }
    false
}

/// The dispatch log's filter settings.
pub struct DispatchFilter {
    /// Event types shown.
    pub type_filters: Vec<String>,
    pub filter_tg: Option<u32>,
    pub filter_uid: Option<u32>,
    pub enc_only: bool,
    /// Only talkgroups of this department.
    pub filter_dept: Option<String>,
    /// Case-insensitive search text.
    pub search: String,
}

impl DispatchFilter {
    /// The dispatch log's starting filter: P25 voice events only (network
    /// signalling and RDS are switched on by the operator), nothing else set.
    pub fn new() -> (res: Self)
        ensures
            res.type_filters@.len() == 1,
            res.type_filters@[0]@ == "p25"@,
            res.filter_tg is None,
            res.filter_uid is None,
            !res.enc_only,
            res.filter_dept is None,
            res.search@ == Seq::<char>::empty(),
    {
        let mut type_filters: Vec<String> = Vec::new();
        type_filters.push(String::from_str("p25"));
        DispatchFilter {
            type_filters,
            filter_tg: None,
            filter_uid: None,
            enc_only: false,
            filter_dept: None,
            search: String::new(),
        }
    }
}

/// Lower-cased department of an event's talkgroup, or empty.
pub open spec fn dept_lower(depts: Map<u32, String>, t: Option<u32>) -> Seq<char> {
    match t {
        Some(x) => if depts.contains_key(x) { lowercase_of(depts[x]@) } else { Seq::empty() },
        None => Seq::empty(),
    }
}

/// Whether the dispatch log shows an event: its type is selected, it matches
/// the talkgroup, unit, encryption and department filters that are set, and
/// the lower-cased search text (when not empty) occurs in its lower-cased
/// summary, type or department.
pub open spec fn dispatch_matches_spec(
    e: ProtocolEvent,
    f: DispatchFilter,
    names: Map<u32, String>,
    depts: Map<u32, String>,
) -> bool {
    let q = lowercase_of(f.search@);
    &&& f.type_filters@.map_values(|s: String| s@).contains(e.event_type@)
    &&& (f.filter_tg matches Some(tg) ==> e.talkgroup == Some(tg))
    &&& (f.filter_uid matches Some(u) ==> e.source_unit == Some(u))
    &&& (f.enc_only ==> e.encrypted == Some(true))
    &&& (f.filter_dept matches Some(d) ==> (e.talkgroup matches Some(tg) && depts.contains_key(tg)
        && depts[tg]@ == d@))
    &&& (q.len() > 0 ==> (has_substring(lowercase_of(event_summary_spec(e, names)), q)
        || has_substring(lowercase_of(e.event_type@), q)
        || has_substring(dept_lower(depts, e.talkgroup), q)))
}

fn selected(types: &Vec<String>, t: &str) -> (r: bool)
    ensures
        r == types@.map_values(|s: String| s@).contains(t@),
{
    let ghost m = types@.map_values(|s: String| s@);
    let mut i: usize = 0;
    while i < types.len()
        invariant
            i <= types@.len(),
            m == types@.map_values(|s: String| s@),
            forall|k: int| 0 <= k < i ==> m[k] != t@,
        decreases types@.len() - i,
    {
        if str_eq(types[i].as_str(), t) {
            assert(m[i as int] == t@);
            return true;
        }
        i = i + 1;
    }
    false
}

/// Whether the dispatch log shows `evt` under filter `f`.
pub fn dispatch_matches(
    evt: &ProtocolEvent,
    f: &DispatchFilter,
    tg_names: &HashMap<u32, String>,
    tg_depts: &HashMap<u32, String>,
) -> (r: bool)
    ensures
        r == dispatch_matches_spec(*evt, *f, tg_names@, tg_depts@),
{
    if !selected(&f.type_filters, evt.event_type.as_str()) {
        return false;
    }
    match f.filter_tg {
        Some(tg) => {
            if evt.talkgroup != Some(tg) {
                return false;
            }
        },
        None => {},
    }
    match f.filter_uid {
        Some(u) => {
            if evt.source_unit != Some(u) {
                return false;
            }
        },
        None => {},
    }
    if f.enc_only && evt.encrypted != Some(true) {
        return false;
    }
    match &f.filter_dept {
        Some(d) => {
            match evt.talkgroup {
                Some(tg) => {
                    match lookup(tg_depts, tg) {
                        Some(dd) => {
                            if !str_eq(dd.as_str(), d.as_str()) {
                                return false;
                            }
                        },
                        None => {
                            return false;
                        },
                    }
                },
                None => {
                    return false;
                },
            }
        },
        None => {},
    }
    let q = to_lowercase(f.search.as_str());
    if q.as_str().unicode_len() > 0 {
        let summary = to_lowercase(event_summary(evt, tg_names).as_str());
        let ty = to_lowercase(evt.event_type.as_str());
        let dept = match evt.talkgroup {
            Some(tg) => match lookup(tg_depts, tg) {
                Some(dd) => to_lowercase(dd.as_str()),
                None => String::new(),
            },
            None => String::new(),
        };
        assert(dept@ == dept_lower(tg_depts@, evt.talkgroup));
        if !str_contains(summary.as_str(), q.as_str()) && !str_contains(ty.as_str(), q.as_str())
            && !str_contains(dept.as_str(), q.as_str()) {
            return false;
        }
    }
    true
}

/// Indices (ascending) of the events among the first `n` that the filter shows.
pub open spec fn shown_prefix(
    es: Seq<ProtocolEvent>,
    f: DispatchFilter,
    names: Map<u32, String>,
    depts: Map<u32, String>,
    n: nat,
) -> Seq<usize>
    decreases n,
{
    if n == 0 {
        Seq::empty()
    } else {
        let p = shown_prefix(es, f, names, depts, (n - 1) as nat);
        if dispatch_matches_spec(es[n - 1], f, names, depts) {
            p.push((n - 1) as usize)
        } else {
            p
        }
    }
}

proof fn lemma_shown_prefix_grows(
    es: Seq<ProtocolEvent>,
    f: DispatchFilter,
    names: Map<u32, String>,
    depts: Map<u32, String>,
    i: nat,
    n: nat,
)
    requires
        i <= n,
    ensures
        shown_prefix(es, f, names, depts, i).len() <= shown_prefix(es, f, names, depts, n).len(),
        shown_prefix(es, f, names, depts, n).take(shown_prefix(es, f, names, depts, i).len() as int)
            == shown_prefix(es, f, names, depts, i),
    decreases n - i,
{
    if i < n {
        lemma_shown_prefix_grows(es, f, names, depts, i, (n - 1) as nat);
        let a = shown_prefix(es, f, names, depts, i);
        let b = shown_prefix(es, f, names, depts, (n - 1) as nat);
        let c = shown_prefix(es, f, names, depts, n);
        assert(c.take(a.len() as int) =~= b.take(a.len() as int));
    } else {
        let a = shown_prefix(es, f, names, depts, i);
        assert(a.take(a.len() as int) =~= a);
    }
}

/// Most events the dispatch log lists at once.
pub const DISPATCH_ROWS: usize = 100;

/// Indices of the events the dispatch log lists: those the filter shows, in
/// log order, at most `DISPATCH_ROWS` of them.
pub fn filter_dispatch(
    events: &Vec<ProtocolEvent>,
    f: &DispatchFilter,
    tg_names: &HashMap<u32, String>,
    tg_depts: &HashMap<u32, String>,
) -> (res: Vec<usize>)
    ensures
        res@ == {
            let all = shown_prefix(events@, *f, tg_names@, tg_depts@, events@.len() as nat);
            if all.len() > DISPATCH_ROWS { all.take(DISPATCH_ROWS as int) } else { all }
        },
{
    let mut out: Vec<usize> = Vec::new();
    let mut i: usize = 0;
    while i < events.len()
        invariant
            i <= events@.len(),
            out@ == shown_prefix(events@, *f, tg_names@, tg_depts@, i as nat),
            out@.len() < DISPATCH_ROWS || i == 0,
            out@.len() <= DISPATCH_ROWS,
        decreases events@.len() - i,
    {
        if dispatch_matches(&events[i], f, tg_names, tg_depts) {
            out.push(i);
        }
        i = i + 1;
        if out.len() == DISPATCH_ROWS {
            proof {
                lemma_shown_prefix_grows(events@, *f, tg_names@, tg_depts@, i as nat, events@.len() as nat);
            }
            return out;
        }
    }
    out
}


/// The dispatch search looks at the event's type as well as its summary
/// and department: an event that passes the type, talkgroup, unit,
/// encryption and department filters is shown exactly when the search is
/// empty or the lower-cased search text occurs in its lower-cased summary,
/// its lower-cased event type or its talkgroup's lower-cased department.
pub proof fn law_dispatch_search_fields(e: ProtocolEvent, f: DispatchFilter, names: Map<u32, String>, depts: Map<u32, String>)
    requires
        exists|i: int| 0 <= i < f.type_filters@.len() && #[trigger] f.type_filters@[i]@ == e.event_type@,
        f.filter_tg matches Some(tg) ==> e.talkgroup == Some(tg),
        f.filter_uid matches Some(u) ==> e.source_unit == Some(u),
        f.enc_only ==> e.encrypted == Some(true),
        f.filter_dept matches Some(d) ==> (e.talkgroup matches Some(tg) && depts.contains_key(tg) && depts[tg]@ == d@),
    ensures
        ({
            let q = lowercase_of(f.search@);
            dispatch_matches_spec(e, f, names, depts) <==> {
                ||| q.len() == 0
                ||| has_substring(lowercase_of(event_summary_spec(e, names)), q)
                ||| has_substring(lowercase_of(e.event_type@), q)
                ||| has_substring(dept_lower(depts, e.talkgroup), q)
            }
        }),
{
    let i = choose|i: int| 0 <= i < f.type_filters@.len() && #[trigger] f.type_filters@[i]@ == e.event_type@;
    let m = f.type_filters@.map_values(|s: String| s@);
    assert(m[i] == e.event_type@);
}


/// Each filter that is set hides the events it does not match: an event of
/// an unselected type, of another talkgroup or unit, an unencrypted one
/// under the encrypted-only switch, or one outside the chosen department is
/// not shown.
pub proof fn law_dispatch_filters_exclude(e: ProtocolEvent, f: DispatchFilter, names: Map<u32, String>, depts: Map<u32, String>)
    ensures
        (forall|i: int| 0 <= i < f.type_filters@.len() ==> #[trigger] f.type_filters@[i]@ != e.event_type@)
            ==> !dispatch_matches_spec(e, f, names, depts),
        (f.filter_tg matches Some(tg) && e.talkgroup != Some(tg)) ==> !dispatch_matches_spec(e, f, names, depts),
        (f.filter_uid matches Some(u) && e.source_unit != Some(u)) ==> !dispatch_matches_spec(e, f, names, depts),
        (f.enc_only && e.encrypted != Some(true)) ==> !dispatch_matches_spec(e, f, names, depts),
        (f.filter_dept matches Some(d) && !(e.talkgroup matches Some(tg) && depts.contains_key(tg) && depts[tg]@ == d@))
            ==> !dispatch_matches_spec(e, f, names, depts),
{
    let m = f.type_filters@.map_values(|s: String| s@);
    if m.contains(e.event_type@) {
        let i = choose|i: int| 0 <= i < m.len() && m[i] == e.event_type@;
        assert(f.type_filters@[i]@ == e.event_type@);
    }
}

} // verus!
