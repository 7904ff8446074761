use vstd::prelude::*;
use vstd::string::{StrSliceExecFns, StringExecFns};
use crate::parsing::{digits_value, dec_digit, int_text_value, parse_i64, parse_i64_spec, parse_u8, parse_u8_spec};
use crate::strbuf::{decimal, digit_char, push_char, push_decimal, str_eq};

verus! {

/// Fields an event filter can test.
#[derive(Clone, Copy, Debug, PartialEq, Eq, Structural)]
pub enum Field {
    EventType,
    Severity,
    Source,
    FreqMhz,
    Talkgroup,
    SourceUnit,
    Nac,
    Encrypted,
    Band,
    DeviceKey,
    Classification,
    Body,
    /// Any field outside the editor's list (such as a free attribute).
    Attribute,
}

/// A filter operand. `F` is the floating-point payload, which this library
/// carries but never inspects.
pub enum FilterValue<F> {
    String(String),
    Int(i64),
    Float(F),
    Bool(bool),
}

/// An event filter.
pub enum Filter<F> {
    Eq(Field, FilterValue<F>),
    Ne(Field, FilterValue<F>),
    Gt(Field, FilterValue<F>),
    Gte(Field, FilterValue<F>),
    Lt(Field, FilterValue<F>),
    Lte(Field, FilterValue<F>),
    Contains(Field, String),
    Like(Field, String),
    Exists(Field),
}

/// Mathematical view of a filter operand.
pub enum ValueView<F> {
    Text(Seq<char>),
    Int(i64),
    Float(F),
    Bool(bool),
}

/// Mathematical view of a filter.
pub enum FilterView<F> {
    Eq(Field, ValueView<F>),
    Ne(Field, ValueView<F>),
    Gt(Field, ValueView<F>),
    Gte(Field, ValueView<F>),
    Lt(Field, ValueView<F>),
    Lte(Field, ValueView<F>),
    Contains(Field, Seq<char>),
    Like(Field, Seq<char>),
    Exists(Field),
}

impl<F> View for FilterValue<F> {
    type V = ValueView<F>;

    open spec fn view(&self) -> ValueView<F> {
        match self {
            FilterValue::String(s) => ValueView::Text(s@),
            FilterValue::Int(n) => ValueView::Int(*n),
            FilterValue::Float(f) => ValueView::Float(*f),
            FilterValue::Bool(b) => ValueView::Bool(*b),
        }
    }
}

impl<F> View for Filter<F> {
    type V = FilterView<F>;

    open spec fn view(&self) -> FilterView<F> {
        match self {
            Filter::Eq(f, v) => FilterView::Eq(*f, v@),
            Filter::Ne(f, v) => FilterView::Ne(*f, v@),
            Filter::Gt(f, v) => FilterView::Gt(*f, v@),
            Filter::Gte(f, v) => FilterView::Gte(*f, v@),
            Filter::Lt(f, v) => FilterView::Lt(*f, v@),
            Filter::Lte(f, v) => FilterView::Lte(*f, v@),
            Filter::Contains(f, s) => FilterView::Contains(*f, s@),
            Filter::Like(f, s) => FilterView::Like(*f, s@),
            Filter::Exists(f) => FilterView::Exists(*f),
        }
    }
}

/// Text an editor shows for an operand: plain text, or a float left to the
/// caller to render.
pub enum EditText<F> {
    Text(String),
    Float(F),
}

pub enum EditView<F> {
    Text(Seq<char>),
    Float(F),
}

impl<F> View for EditText<F> {
    type V = EditView<F>;

    open spec fn view(&self) -> EditView<F> {
        match self {
            EditText::Text(s) => EditView::Text(s@),
            EditText::Float(f) => EditView::Float(*f),
        }
    }
}

/// Decimal text of a signed integer.
pub open spec fn signed_decimal(n: int) -> Seq<char> {
    if n < 0 {
        seq!['-'] + decimal((-n) as nat)
    } else {
        decimal(n as nat)
    }
}

/// How an operand typed into the editor is read: an integer if it parses as
/// `i64`, else a float if `as_float` (the caller's `f64` parse of the same
/// text) succeeded, else a boolean for `true`/`false`, else plain text.
pub open spec fn parse_value_spec<F>(s: Seq<char>, as_float: Option<F>) -> ValueView<F> {
    match parse_i64_spec(s) {
        Some(n) => ValueView::Int(n),
        None => match as_float {
            Some(f) => ValueView::Float(f),
            None => if s == "true"@ || s == "false"@ {
                ValueView::Bool(s == "true"@)
            } else {
                ValueView::Text(s)
            },
        },
    }
}

/// The text shown for an operand.
pub open spec fn value_text_spec<F>(v: ValueView<F>) -> EditView<F> {
    match v {
        ValueView::Text(s) => EditView::Text(s),
        ValueView::Int(n) => EditView::Text(signed_decimal(n as int)),
        ValueView::Float(f) => EditView::Float(f),
        ValueView::Bool(b) => EditView::Text(if b { "true"@ } else { "false"@ }),
    }
}

/// The filter built from an operator index, a field and an operand text.
pub open spec fn recompose_spec<F>(op: u8, field: Field, s: Seq<char>, as_float: Option<F>) -> FilterView<F> {
    let v = parse_value_spec(s, as_float);
    if op == 1 {
        FilterView::Ne(field, v)
    } else if op == 2 {
        FilterView::Gt(field, v)
    } else if op == 3 {
        FilterView::Gte(field, v)
    } else if op == 4 {
        FilterView::Lt(field, v)
    } else if op == 5 {
        FilterView::Lte(field, v)
    } else if op == 6 {
        FilterView::Contains(field, s)
    } else if op == 7 {
        FilterView::Like(field, s)
    } else {
        FilterView::Eq(field, v)
    }
}

/// The operator index, field and operand text an editor shows for a filter.
/// Filters the editor cannot show come out as an empty event-type equality.
pub open spec fn decompose_spec<F>(f: FilterView<F>) -> (u8, Field, EditView<F>) {
    match f {
        FilterView::Eq(fd, v) => (0u8, fd, value_text_spec(v)),
        FilterView::Ne(fd, v) => (1u8, fd, value_text_spec(v)),
        FilterView::Gt(fd, v) => (2u8, fd, value_text_spec(v)),
        FilterView::Gte(fd, v) => (3u8, fd, value_text_spec(v)),
        FilterView::Lt(fd, v) => (4u8, fd, value_text_spec(v)),
        FilterView::Lte(fd, v) => (5u8, fd, value_text_spec(v)),
        FilterView::Contains(fd, s) => (6u8, fd, EditView::Text(s)),
        FilterView::Like(fd, s) => (7u8, fd, EditView::Text(s)),
        FilterView::Exists(_) => (0u8, Field::EventType, EditView::Text(Seq::empty())),
    }
}

pub(crate) fn push_signed(s: &mut String, n: i64)
    ensures
        final(s)@ == old(s)@ + signed_decimal(n as int),
{
    if n < 0 {
        push_char(s, '-');
        let m: u64 = if n == i64::MIN { 9_223_372_036_854_775_808u64 } else { (-n) as u64 };
        push_decimal(s, m);
    } else {
        push_decimal(s, n as u64);
    }
}

/// Parses an operand text. `as_float` is the caller's `f64` parse of `s`
/// (`s.parse::<f64>().ok()`), used only when `s` is not an integer.
pub fn parse_filter_value<F>(s: &str, as_float: Option<F>) -> (res: FilterValue<F>)
    ensures
        res@ == parse_value_spec(s@, as_float),
{
    match parse_i64(s) {
        Some(n) => FilterValue::Int(n),
        None => match as_float {
            Some(f) => FilterValue::Float(f),
            None => {
                if str_eq(s, "true") || str_eq(s, "false") {
                    FilterValue::Bool(str_eq(s, "true"))
                } else {
                    FilterValue::String(String::from_str(s))
                }
            },
        },
    }
}

/// The editor text of an operand; a float is handed back for the caller to render.
pub fn filter_val_str<F: Copy>(fv: &FilterValue<F>) -> (res: EditText<F>)
    ensures
        res@ == value_text_spec(fv@),
{
    match fv {
        FilterValue::String(s) => EditText::Text(s.clone()),
        FilterValue::Int(n) => {
            let mut t = String::new();
            push_signed(&mut t, *n);
            EditText::Text(t)
        },
        FilterValue::Float(f) => EditText::Float(*f),
        FilterValue::Bool(b) => {
            if *b {
                EditText::Text(String::from_str("true"))
            } else {
                EditText::Text(String::from_str("false"))
            }
        },
    }
}

/// Splits a filter into the editor's operator index (0 `=`, 1 `!=`, 2 `>`,
/// 3 `>=`, 4 `<`, 5 `<=`, 6 contains, 7 like), field and operand text.
pub fn decompose_filter<F: Copy>(f: &Filter<F>) -> (res: (u8, Field, EditText<F>))
    ensures
        (res.0, res.1, res.2@) == decompose_spec(f@),
{
    match f {
        Filter::Eq(field, val) => (0, *field, filter_val_str(val)),
        Filter::Ne(field, val) => (1, *field, filter_val_str(val)),
        Filter::Gt(field, val) => (2, *field, filter_val_str(val)),
        Filter::Gte(field, val) => (3, *field, filter_val_str(val)),
        Filter::Lt(field, val) => (4, *field, filter_val_str(val)),
        Filter::Lte(field, val) => (5, *field, filter_val_str(val)),
        Filter::Contains(field, s) => (6, *field, EditText::Text(s.clone())),
        Filter::Like(field, s) => (7, *field, EditText::Text(s.clone())),
        Filter::Exists(_) => (0, Field::EventType, EditText::Text(String::new())),
    }
}

/// Builds a filter from the editor's operator index, field and operand
/// text; an unknown index means equality. `as_float` is the caller's
/// `f64` parse of `value`.
pub fn recompose_filter<F>(op: u8, field: Field, value: &str, as_float: Option<F>) -> (res: Filter<F>)
    ensures
        res@ == recompose_spec(op, field, value@, as_float),
{
    if op == 6 {
        return Filter::Contains(field, String::from_str(value));
    }
    if op == 7 {
        return Filter::Like(field, String::from_str(value));
    }
    let fv = parse_filter_value(value, as_float);
    if op == 1 {
        Filter::Ne(field, fv)
    } else if op == 2 {
        Filter::Gt(field, fv)
    } else if op == 3 {
        Filter::Gte(field, fv)
    } else if op == 4 {
        Filter::Lt(field, fv)
    } else if op == 5 {
        Filter::Lte(field, fv)
    } else {
        Filter::Eq(field, fv)
    }
}

} // verus!

verus! {

proof fn lemma_digit_char_value(d: int)
    requires
        0 <= d < 10,
    ensures
        dec_digit(digit_char(d)) == Some(d as nat),
{
}

/// Decimal text reads back as the number it writes.
pub proof fn lemma_decimal_reads_back(m: nat)
    ensures
        digits_value(decimal(m)) == Some(m),
        decimal(m).len() > 0,
        decimal(m)[0] != '+' && decimal(m)[0] != '-',
    decreases m,
{
    if m < 10 {
        lemma_digit_char_value(m as int);
        assert(decimal(m) =~= seq![digit_char(m as int)]);
        assert(decimal(m).drop_last() =~= Seq::<char>::empty());
        assert(digits_value(Seq::<char>::empty()) == Some(0nat));
    } else {
        lemma_decimal_reads_back(m / 10);
        lemma_digit_char_value((m % 10) as int);
        let d = decimal(m);
        assert(d.drop_last() =~= decimal(m / 10));
        assert(d.last() == digit_char((m % 10) as int));
        assert(10 * (m / 10) + m % 10 == m);
        assert(digits_value(d) == Some(10 * (m / 10) + m % 10));
        assert(d[0] == decimal(m / 10)[0]);
    }
}

/// Signed decimal text parses back, as an `i64`, to the number it writes.
pub proof fn lemma_signed_decimal_parses(n: i64)
    ensures
        parse_i64_spec(signed_decimal(n as int)) == Some(n),
{
    if n < 0 {
        let m = (-(n as int)) as nat;
        lemma_decimal_reads_back(m);
        let t = signed_decimal(n as int);
        assert(t.skip(1) =~= decimal(m));
        assert(t[0] == '-');
    } else {
        lemma_decimal_reads_back(n as nat);
    }
}

/// Whether the operand of a value filter comes back unchanged when its
/// shown text `text` is read again with the caller's float parse `as_float`.
pub open spec fn reads_back<F>(v: ValueView<F>, text: Seq<char>, as_float: Option<F>) -> bool {
    match v {
        ValueView::Int(_) => true,
        ValueView::Bool(_) => as_float is None,
        ValueView::Float(x) => parse_i64_spec(text) is None && as_float == Some(x),
        ValueView::Text(t) => parse_value_spec(t, as_float) == ValueView::<F>::Text(t),
    }
}

/// The operand of a filter, where it has one that is read from text.
pub open spec fn operand<F>(f: FilterView<F>) -> Option<ValueView<F>> {
    match f {
        FilterView::Eq(_, v) => Some(v),
        FilterView::Ne(_, v) => Some(v),
        FilterView::Gt(_, v) => Some(v),
        FilterView::Gte(_, v) => Some(v),
        FilterView::Lt(_, v) => Some(v),
        FilterView::Lte(_, v) => Some(v),
        _ => None,
    }
}

/// Editing a filter and saving it unchanged gives the same filter back: the
/// operator index, field and text that `decompose_filter` shows, passed to
/// `recompose_filter`, rebuild the filter, whenever its operand reads back as
/// itself (a float operand is shown by the caller as `text`). Filters the
/// editor cannot show (`Exists`) are outside the law.
pub proof fn law_edit_roundtrip<F>(f: FilterView<F>, text: Seq<char>, as_float: Option<F>)
    requires
        !(f is Exists),
        match decompose_spec(f).2 {
            EditView::Text(t) => text == t,
            EditView::Float(_) => true,
        },
        match operand(f) {
            Some(v) => reads_back(v, text, as_float),
            None => true,
        },
    ensures
        recompose_spec(decompose_spec(f).0, decompose_spec(f).1, text, as_float) == f,
{
    match operand(f) {
        Some(v) => {
            match v {
                ValueView::Int(n) => {
                    lemma_signed_decimal_parses(n);
                },
                ValueView::Bool(b) => {
                    reveal_strlit("true");
                    reveal_strlit("false");
                    assert(dec_digit('t') is None);
                    assert(dec_digit('f') is None);
                    assert("true"@.skip(0) =~= "true"@);
                    assert(digits_value("true"@) is None) by {
                        reveal_with_fuel(digits_value, 5);
                        assert("true"@.drop_last().drop_last().drop_last() =~= seq!['t']);
                        assert(seq!['t'].drop_last() =~= Seq::<char>::empty());
                    }
                    assert(digits_value("false"@) is None) by {
                        reveal_with_fuel(digits_value, 6);
                        assert("false"@.drop_last().drop_last().drop_last().drop_last() =~= seq!['f']);
                        assert(seq!['f'].drop_last() =~= Seq::<char>::empty());
                    }
                },
                _ => {},
            }
        },
        None => {},
    }
}

} // verus!

verus! {

/// Human-readable name of a field.
pub open spec fn field_display_spec(f: Field) -> Seq<char> {
    match f {
        Field::EventType => "Event Type"@,
        Field::Severity => "Severity"@,
        Field::Source => "Source"@,
        Field::FreqMhz => "Frequency"@,
        Field::Talkgroup => "Talkgroup"@,
        Field::SourceUnit => "Radio Unit ID"@,
        Field::Nac => "NAC"@,
        Field::Encrypted => "Encrypted"@,
        Field::Band => "Band"@,
        Field::DeviceKey => "Device"@,
        Field::Classification => "Classification"@,
        Field::Body => "Body Text"@,
        Field::Attribute => "Attribute"@,
    }
}

pub fn field_display(f: &Field) -> (res: &'static str)
    ensures
        res@ == field_display_spec(*f),
{
    match f {
        Field::EventType => "Event Type",
        Field::Severity => "Severity",
        Field::Source => "Source",
        Field::FreqMhz => "Frequency",
        Field::Talkgroup => "Talkgroup",
        Field::SourceUnit => "Radio Unit ID",
        Field::Nac => "NAC",
        Field::Encrypted => "Encrypted",
        Field::Band => "Band",
        Field::DeviceKey => "Device",
        Field::Classification => "Classification",
        Field::Body => "Body Text",
        Field::Attribute => "Attribute",
    }
}

/// The editor's field at a menu index.
pub open spec fn field_at_spec(idx: usize) -> Option<Field> {
    if idx == 0 {
        Some(Field::EventType)
    } else if idx == 1 {
        Some(Field::Severity)
    } else if idx == 2 {
        Some(Field::Source)
    } else if idx == 3 {
        Some(Field::FreqMhz)
    } else if idx == 4 {
        Some(Field::Talkgroup)
    } else if idx == 5 {
        Some(Field::SourceUnit)
    } else if idx == 6 {
        Some(Field::Nac)
    } else if idx == 7 {
        Some(Field::Encrypted)
    } else if idx == 8 {
        Some(Field::Band)
    } else if idx == 9 {
        Some(Field::DeviceKey)
    } else if idx == 10 {
        Some(Field::Classification)
    } else if idx == 11 {
        Some(Field::Body)
    } else {
        None
    }
}

pub fn field_at(idx: usize) -> (res: Option<Field>)
    ensures
        res == field_at_spec(idx),
{
    if idx == 0 {
        Some(Field::EventType)
    } else if idx == 1 {
        Some(Field::Severity)
    } else if idx == 2 {
        Some(Field::Source)
    } else if idx == 3 {
        Some(Field::FreqMhz)
    } else if idx == 4 {
        Some(Field::Talkgroup)
    } else if idx == 5 {
        Some(Field::SourceUnit)
    } else if idx == 6 {
        Some(Field::Nac)
    } else if idx == 7 {
        Some(Field::Encrypted)
    } else if idx == 8 {
        Some(Field::Band)
    } else if idx == 9 {
        Some(Field::DeviceKey)
    } else if idx == 10 {
        Some(Field::Classification)
    } else if idx == 11 {
        Some(Field::Body)
    } else {
        None
    }
}

/// Known values offered for a field before the database's own.
pub open spec fn known_values(idx: usize) -> Seq<Seq<char>> {
    if idx == 0 {
        seq![
            "spectrum.detect"@, "spectrum.lost"@, "spectrum.anomaly"@,
            "protocol.p25.voice"@, "protocol.p25.grant"@, "protocol.p25.update"@,
            "protocol.p25.register"@, "protocol.p25.deregister"@, "protocol.p25.affiliation"@,
            "protocol.p25.deny"@, "protocol.p25.adjacent"@,
            "protocol.rds.update"@, "protocol.same.alert"@,
            "sigex.emitter.new"@, "sigex.emitter.return"@, "sigex.uid.mismatch"@,
            "sigex.crypto.rotation"@, "sigex.traffic.session"@, "sigex.anomaly.baseline"@,
            "system.sdr.connect"@, "system.sdr.disconnect"@, "system.sdr.error"@,
            "system.gps.fix"@, "system.mode.change"@,
            "system.recording.start"@, "system.recording.stop"@,
            "system.alert.fired"@,
        ]
    } else if idx == 1 {
        seq!["1 (TRACE)"@, "5 (DEBUG)"@, "9 (INFO)"@, "11 (NOTICE)"@, "13 (WARN)"@, "17 (ERROR)"@, "21 (FATAL)"@]
    } else if idx == 2 {
        seq!["0 (SPECTRUM)"@, "1 (PROTOCOL)"@, "2 (SIGEX)"@, "3 (SYSTEM)"@, "4 (AUDIO)"@, "5 (CUSTOM)"@]
    } else if idx == 7 {
        seq!["true"@, "false"@]
    } else if idx == 8 {
        seq!["VHF"@, "UHF"@, "HF"@, "700"@, "800"@, "900"@, "MARINE"@, "AIR"@, "FRS"@, "GMRS"@, "MURS"@]
    } else if idx == 10 {
        seq!["PUBS"@, "AMAT"@, "MARN"@, "WX"@, "GMRS"@, "COMM"@, "FEDL"@, "BCST"@, "UNK"@]
    } else {
        Seq::empty()
    }
}

fn known_values_list(idx: usize) -> (v: Vec<&'static str>)
    ensures
        v@.len() == known_values(idx).len(),
        forall|i: int| 0 <= i < v@.len() ==> #[trigger] v@[i]@ == known_values(idx)[i],
{
    if idx == 0 {
        vec![
            "spectrum.detect", "spectrum.lost", "spectrum.anomaly",
            "protocol.p25.voice", "protocol.p25.grant", "protocol.p25.update",
            "protocol.p25.register", "protocol.p25.deregister", "protocol.p25.affiliation",
            "protocol.p25.deny", "protocol.p25.adjacent",
            "protocol.rds.update", "protocol.same.alert",
            "sigex.emitter.new", "sigex.emitter.return", "sigex.uid.mismatch",
            "sigex.crypto.rotation", "sigex.traffic.session", "sigex.anomaly.baseline",
            "system.sdr.connect", "system.sdr.disconnect", "system.sdr.error",
            "system.gps.fix", "system.mode.change",
            "system.recording.start", "system.recording.stop",
            "system.alert.fired",
        ]
    } else if idx == 1 {
        vec!["1 (TRACE)", "5 (DEBUG)", "9 (INFO)", "11 (NOTICE)", "13 (WARN)", "17 (ERROR)", "21 (FATAL)"]
    } else if idx == 2 {
        vec!["0 (SPECTRUM)", "1 (PROTOCOL)", "2 (SIGEX)", "3 (SYSTEM)", "4 (AUDIO)", "5 (CUSTOM)"]
    } else if idx == 7 {
        vec!["true", "false"]
    } else if idx == 8 {
        vec!["VHF", "UHF", "HF", "700", "800", "900", "MARINE", "AIR", "FRS", "GMRS", "MURS"]
    } else if idx == 10 {
        vec!["PUBS", "AMAT", "MARN", "WX", "GMRS", "COMM", "FEDL", "BCST", "UNK"]
    } else {
        Vec::new()
    }
}

/// The facet whose counts supply suggestions for a field, if any.
pub open spec fn facet_key(idx: usize) -> Option<Seq<char>> {
    if idx == 0 {
        Some("event_type"@)
    } else if idx == 1 {
        Some("severity"@)
    } else if idx == 8 {
        Some("band"@)
    } else if idx == 2 {
        Some("source"@)
    } else {
        None
    }
}

/// Facet counts as the database reports them: (facet name, [(value, count)]).
pub type Facets = Vec<(String, Vec<(String, u64)>)>;

/// Whether `s` is `v` or starts with `v`.
pub open spec fn covers(s: Seq<char>, v: Seq<char>) -> bool {
    s == v || (v.len() <= s.len() && s.take(v.len() as int) == v)
}

/// Appends each value, in order, that no suggestion so far covers.
pub open spec fn merge_values(list: Seq<Seq<char>>, vals: Seq<Seq<char>>) -> Seq<Seq<char>>
    decreases vals.len(),
{
    if vals.len() == 0 {
        list
    } else {
        let l = merge_values(list, vals.drop_last());
        if exists|i: int| 0 <= i < l.len() && covers(#[trigger] l[i], vals.last()) {
            l
        } else {
            l.push(vals.last())
        }
    }
}

/// Index of the first facet named `key`, if any.
pub open spec fn first_facet(names: Seq<Seq<char>>, key: Seq<char>) -> Option<int> {
    if exists|i: int| 0 <= i < names.len() && names[i] == key {
        Some(choose|i: int| 0 <= i < names.len() && names[i] == key
            && forall|j: int| 0 <= j < i ==> names[j] != key)
    } else {
        None
    }
}

pub open spec fn facet_names(facets: Seq<(String, Vec<(String, u64)>)>) -> Seq<Seq<char>> {
    facets.map_values(|f: (String, Vec<(String, u64)>)| f.0@)
}

pub open spec fn facet_values(facet: (String, Vec<(String, u64)>)) -> Seq<Seq<char>> {
    facet.1@.map_values(|e: (String, u64)| e.0@)
}

/// Suggestions for the value of the field at menu index `idx`: its known
/// values, then each value of its facet that no suggestion equals or starts with.
pub open spec fn value_suggestions_spec(idx: usize, facets: Seq<(String, Vec<(String, u64)>)>) -> Seq<Seq<char>> {
    let base = known_values(idx);
    match facet_key(idx) {
        Some(key) => match first_facet(facet_names(facets), key) {
            Some(i) => merge_values(base, facet_values(facets[i])),
            None => base,
        },
        None => base,
    }
}

fn any_covers(list: &Vec<String>, v: &str) -> (r: bool)
    ensures
        r == exists|i: int| 0 <= i < list@.len() && covers(#[trigger] list@[i]@, v@),
{
    let mut i: usize = 0;
    while i < list.len()
        invariant
            i <= list@.len(),
            forall|k: int| 0 <= k < i ==> !covers(#[trigger] list@[k]@, v@),
        decreases list@.len() - i,
    {
        let s = list[i].as_str();
        if str_eq(s, v) || crate::strbuf::starts_with(s, v) {
            assert(covers(list@[i as int]@, v@));
            return true;
        }
        i = i + 1;
    }
    false
}

/// Value suggestions for the editor's field at menu index `field_idx`,
/// merging its known values with the database's facet values.
pub fn value_suggestions(field_idx: usize, facets: &Facets) -> (res: Vec<String>)
    ensures
        res@.map_values(|s: String| s@) == value_suggestions_spec(field_idx, facets@),
{
    let known = known_values_list(field_idx);
    let mut out: Vec<String> = Vec::new();
    let mut i: usize = 0;
    while i < known.len()
        invariant
            i <= known@.len(),
            known@.len() == known_values(field_idx).len(),
            forall|k: int| 0 <= k < known@.len() ==> #[trigger] known@[k]@ == known_values(field_idx)[k],
            out@.map_values(|s: String| s@) == known_values(field_idx).take(i as int),
        decreases known@.len() - i,
    {
        out.push(String::from_str(known[i]));
        assert(known_values(field_idx).take(i + 1) =~= known_values(field_idx).take(i as int).push(known@[i as int]@));
        assert(out@.map_values(|s: String| s@) =~= known_values(field_idx).take(i + 1));
        i = i + 1;
    }
    assert(known_values(field_idx).take(known@.len() as int) =~= known_values(field_idx));
    let key: &str = if field_idx == 0 {
        "event_type"
    } else if field_idx == 1 {
        "severity"
    } else if field_idx == 8 {
        "band"
    } else if field_idx == 2 {
        "source"
    } else {
        return out;
    };
    assert(facet_key(field_idx) == Some(key@));
    let ghost names = facet_names(facets@);
    let mut j: usize = 0;
    while j < facets.len()
        invariant
            j <= facets@.len(),
            names == facet_names(facets@),
            forall|k: int| 0 <= k < j ==> names[k] != key@,
            out@.map_values(|s: String| s@) == known_values(field_idx),
            facet_key(field_idx) == Some(key@),
            names.len() == facets@.len(),
        decreases facets@.len() - j,
    {
        if str_eq(facets[j].0.as_str(), key) {
            assert(names[j as int] == key@);
            assert(first_facet(names, key@) == Some(j as int)) by {
                let c = choose|i: int| 0 <= i < names.len() && names[i] == key@
                    && forall|jj: int| 0 <= jj < i ==> names[jj] != key@;
                assert(0 <= j < names.len() && names[j as int] == key@
                    && forall|jj: int| 0 <= jj < j ==> names[jj] != key@);
                if c < j {
                } else if c > j {
                }
            }
            let vals = &facets[j].1;
            let ghost fv = facet_values(facets@[j as int]);
            let ghost base = out@.map_values(|s: String| s@);
            let mut k: usize = 0;
            assert(fv.take(0) =~= Seq::<Seq<char>>::empty());
            while k < vals.len()
                invariant
                    k <= vals@.len(),
                    fv == vals@.map_values(|e: (String, u64)| e.0@),
                    out@.map_values(|s: String| s@) == merge_values(base, fv.take(k as int)),
                decreases vals@.len() - k,
            {
                let v = vals[k].0.as_str();
                assert(fv.take(k + 1).drop_last() =~= fv.take(k as int));
                assert(fv.take(k + 1).last() == v@);
                let ghost before = out@.map_values(|s: String| s@);
                if !any_covers(&out, v) {
                    out.push(String::from_str(v));
                    assert(out@.map_values(|s: String| s@) =~= before.push(v@));
                } else {
                    let ghost w = choose|i: int| 0 <= i < out@.len() && covers(#[trigger] out@[i]@, v@);
                    assert(before[w] == out@[w]@);
                }
                k = k + 1;
            }
            assert(fv.take(vals@.len() as int) =~= fv);
            assert(value_suggestions_spec(field_idx, facets@) == merge_values(base, fv));
            return out;
        }
        j = j + 1;
    }
    assert(!exists|i: int| 0 <= i < names.len() && names[i] == key@);
    assert(first_facet(names, key@) is None);
    out
}


/// Whether `a` is `b` with some entries left out, order kept.
pub open spec fn is_subsequence<A>(a: Seq<A>, b: Seq<A>) -> bool
    decreases b.len(),
{
    if a.len() == 0 {
        true
    } else if b.len() == 0 {
        false
    } else {
        (a.last() == b.last() && is_subsequence(a.drop_last(), b.drop_last()))
            || is_subsequence(a, b.drop_last())
    }
}

/// Whether no entry of `s` occurs twice.
pub open spec fn no_duplicates<A>(s: Seq<A>) -> bool {
    forall|i: int, j: int| 0 <= i < j < s.len() ==> s[i] != s[j]
}

proof fn lemma_merge_values(list: Seq<Seq<char>>, vals: Seq<Seq<char>>)
    ensures
        merge_values(list, vals).len() >= list.len(),
        merge_values(list, vals).take(list.len() as int) == list,
        forall|k: int| #![trigger vals[k]] 0 <= k < vals.len() ==> exists|i: int|
            0 <= i < merge_values(list, vals).len() && covers(#[trigger] merge_values(list, vals)[i], vals[k]),
        is_subsequence(merge_values(list, vals).skip(list.len() as int), vals),
        no_duplicates(list) ==> no_duplicates(merge_values(list, vals)),
    decreases vals.len(),
{
    if vals.len() == 0 {
        assert(list.take(list.len() as int) =~= list);
        assert(list.skip(list.len() as int) =~= Seq::<Seq<char>>::empty());
    } else {
        let d = vals.drop_last();
        let v = vals.last();
        lemma_merge_values(list, d);
        let l = merge_values(list, d);
        let r = merge_values(list, vals);
        assert(is_subsequence(l.skip(list.len() as int), vals)) by {
            if l.skip(list.len() as int).len() > 0 {
                assert(vals.drop_last() =~= d);
            }
        }
        if exists|i: int| 0 <= i < l.len() && covers(#[trigger] l[i], v) {
            assert(r == l);
            assert forall|k: int| #![trigger vals[k]] 0 <= k < vals.len() implies exists|i: int|
                0 <= i < r.len() && covers(#[trigger] r[i], vals[k]) by {
                if k < d.len() {
                    assert(vals[k] == d[k]);
                }
            }
        } else {
            assert(r == l.push(v));
            assert(r.take(list.len() as int) =~= l.take(list.len() as int));
            assert(r.skip(list.len() as int) =~= l.skip(list.len() as int).push(v));
            assert(r.skip(list.len() as int).drop_last() =~= l.skip(list.len() as int));
            assert(vals.drop_last() =~= d);
            assert forall|k: int| #![trigger vals[k]] 0 <= k < vals.len() implies exists|i: int|
                0 <= i < r.len() && covers(#[trigger] r[i], vals[k]) by {
                if k < d.len() {
                    assert(vals[k] == d[k]);
                    let i = choose|i: int| 0 <= i < l.len() && covers(#[trigger] l[i], d[k]);
                    assert(r[i] == l[i]);
                } else {
                    assert(covers(r[l.len() as int], v));
                }
            }
            assert forall|i: int| 0 <= i < l.len() implies l[i] != v by {
                if l[i] == v {
                    assert(covers(l[i], v));
                }
            }
        }
    }
}

/// The editor's value suggestions for the field at menu index `idx` start
/// with that field's known values; every value of the field's facet (the
/// first facet under the field's key) is offered, as itself or within a
/// suggestion that starts with it; the suggestions after the known ones are
/// facet values in their facet order, none twice; and a field without a
/// facet gets its known values alone.
pub proof fn law_value_suggestions(idx: usize, facets: Seq<(String, Vec<(String, u64)>)>)
    ensures
        ({
            let r = value_suggestions_spec(idx, facets);
            let known = known_values(idx);
            &&& r.len() >= known.len()
            &&& r.take(known.len() as int) == known
            &&& facet_key(idx) is None ==> r == known
            &&& match facet_key(idx) {
                Some(key) => match first_facet(facet_names(facets), key) {
                    Some(i) => {
                        let fv = facet_values(facets[i]);
                        &&& forall|k: int| #![trigger fv[k]] 0 <= k < fv.len() ==> exists|j: int|
                            0 <= j < r.len() && covers(#[trigger] r[j], fv[k])
                        &&& is_subsequence(r.skip(known.len() as int), fv)
                        &&& no_duplicates(r.skip(known.len() as int))
                    },
                    None => r == known,
                },
                None => true,
            }
        }),
{
    let known = known_values(idx);
    assert(known.take(known.len() as int) =~= known);
    match facet_key(idx) {
        Some(key) => match first_facet(facet_names(facets), key) {
            Some(i) => {
                let fv = facet_values(facets[i]);
                lemma_merge_values(known, fv);
                let r = merge_values(known, fv);
                let t = r.skip(known.len() as int);
                assert forall|a: int, b: int| 0 <= a < b < t.len() implies t[a] != t[b] by {
                    lemma_tail_distinct(known, fv, a + known.len(), b + known.len());
                }
            },
            None => {},
        },
        None => {},
    }
}

proof fn lemma_tail_distinct(list: Seq<Seq<char>>, vals: Seq<Seq<char>>, a: int, b: int)
    requires
        list.len() <= a < b < merge_values(list, vals).len(),
    ensures
        merge_values(list, vals)[a] != merge_values(list, vals)[b],
    decreases vals.len(),
{
    if vals.len() > 0 {
        let d = vals.drop_last();
        let l = merge_values(list, d);
        lemma_merge_values(list, d);
        if !(exists|i: int| 0 <= i < l.len() && covers(#[trigger] l[i], vals.last())) {
            if b == l.len() {
                if l[a] == vals.last() {
                    assert(covers(l[a], vals.last()));
                }
            } else {
                lemma_tail_distinct(list, d, a, b);
            }
        } else {
            lemma_tail_distinct(list, d, a, b);
        }
    }
}

/// Decomposing a freshly built filter gives back what it was built from:
/// the operator index, the field and the operand text, for every operator
/// the editor offers, whenever the text reads back as itself (always so for
/// `contains` and `like`, whose operand is kept as text).
pub proof fn law_recompose_then_decompose<F>(op: u8, field: Field, text: Seq<char>, as_float: Option<F>)
    requires
        op <= 7,
        op >= 6 || value_text_spec(parse_value_spec(text, as_float)) == EditView::<F>::Text(text),
    ensures
        decompose_spec(recompose_spec(op, field, text, as_float)) == (op, field, EditView::<F>::Text(text)),
{
}

} // verus!
