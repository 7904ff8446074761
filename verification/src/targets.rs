use vstd::prelude::*;
use vstd::string::{StrSliceExecFns, StringExecFns};
use crate::dispatch::{has_substring, str_contains};
use crate::filters::{push_signed, signed_decimal};
use crate::palette::{Swatch, ThemeColor};
use crate::parsing::{parse_i32, parse_i32_spec};
use crate::strbuf::{lowercase_of, str_eq, to_lowercase, trim, trimmed};

verus! {

/// The suggestion list the key box of an observation target offers.
#[derive(Clone, Copy, Debug, PartialEq, Eq, Structural)]
pub enum SuggestionKind {
    Frequencies,
    Talkgroups,
    RadioIds,
    Channels,
    Networks,
    Sites,
}

/// The suggestion list of a target type (frequencies for an unknown type).
pub open spec fn suggestion_kind_spec(t: Seq<char>) -> SuggestionKind {
    if t == "talkgroup"@ {
        SuggestionKind::Talkgroups
    } else if t == "radio_id"@ {
        SuggestionKind::RadioIds
    } else if t == "channel"@ {
        SuggestionKind::Channels
    } else if t == "network"@ {
        SuggestionKind::Networks
    } else if t == "site"@ {
        SuggestionKind::Sites
    } else {
        SuggestionKind::Frequencies
    }
}

/// The placeholder of the key box for a target type.
pub open spec fn key_hint_spec(t: Seq<char>) -> Seq<char> {
    if t == "frequency"@ {
        "e.g. 155.7300"@
    } else if t == "talkgroup"@ {
        "e.g. 1001"@
    } else if t == "radio_id"@ {
        "e.g. 12345"@
    } else if t == "channel"@ {
        "channel name"@
    } else if t == "network"@ {
        "system name"@
    } else if t == "site"@ {
        "site name"@
    } else {
        "key value"@
    }
}

/// A typed optional text: absent when nothing was typed.
pub open spec fn typed_text(s: Seq<char>) -> Option<Seq<char>> {
    if s.len() == 0 { None } else { Some(s) }
}

pub open spec fn opt_view(o: Option<String>) -> Option<Seq<char>> {
    match o {
        Some(s) => Some(s@),
        None => None,
    }
}

fn typed(s: &String) -> (res: Option<String>)
    ensures
        opt_view(res) == typed_text(s@),
{
    if s.as_str().unicode_len() == 0 {
        None
    } else {
        Some(s.clone())
    }
}

/// Label of a priority choice.
pub open spec fn priority_label_spec(p: Seq<char>) -> Seq<char> {
    if p == "3"@ {
        "critical (3)"@
    } else if p == "2"@ {
        "high (2)"@
    } else if p == "1"@ {
        "medium (1)"@
    } else if p == "0"@ {
        "low (0)"@
    } else {
        p
    }
}

pub fn priority_label(p: &str) -> (res: &str)
    ensures
        res@ == priority_label_spec(p@),
{
    if str_eq(p, "3") {
        "critical (3)"
    } else if str_eq(p, "2") {
        "high (2)"
    } else if str_eq(p, "1") {
        "medium (1)"
    } else if str_eq(p, "0") {
        "low (0)"
    } else {
        p
    }
}

/// Colour of a target type in the targets table.
pub open spec fn target_type_color_spec(t: Seq<char>) -> Swatch {
    if t == "frequency"@ {
        Swatch::Theme(ThemeColor::GreenCollect)
    } else if t == "talkgroup"@ {
        Swatch::Theme(ThemeColor::CyanP25)
    } else if t == "uid"@ {
        Swatch::Theme(ThemeColor::AmberWarning)
    } else {
        Swatch::Theme(ThemeColor::TextPrimary)
    }
}

pub fn target_type_color(t: &str) -> (res: Swatch)
    ensures
        res == target_type_color_spec(t@),
{
    if str_eq(t, "frequency") {
        Swatch::Theme(ThemeColor::GreenCollect)
    } else if str_eq(t, "talkgroup") {
        Swatch::Theme(ThemeColor::CyanP25)
    } else if str_eq(t, "uid") {
        Swatch::Theme(ThemeColor::AmberWarning)
    } else {
        Swatch::Theme(ThemeColor::TextPrimary)
    }
}

/// The target to create: type, key, label, priority and notes.
pub struct TargetCreate {
    pub target_type: String,
    pub key: String,
    pub label: Option<String>,
    pub priority: i32,
    pub notes: Option<String>,
}

/// The changes to an existing target: id, label, priority and notes.
pub struct TargetUpdate {
    pub id: i64,
    pub label: Option<String>,
    pub priority: Option<i32>,
    pub notes: Option<String>,
}

/// The observation-target form: what is typed in it, whether it is shown,
/// and the target being edited, if any.
pub struct TargetForm {
    pub visible: bool,
    pub editing_id: Option<i64>,
    pub target_type: String,
    pub key: String,
    pub label: String,
    pub priority: String,
    pub notes: String,
}

impl TargetForm {
    /// A hidden, blank form for a new frequency target of priority 0.
    pub fn new() -> (res: Self)
        ensures
            !res.visible,
            res.editing_id is None,
            res.target_type@ == "frequency"@,
            res.key@ == Seq::<char>::empty(),
            res.label@ == Seq::<char>::empty(),
            res.priority@ == "0"@,
            res.notes@ == Seq::<char>::empty(),
    {
        TargetForm {
            visible: false,
            editing_id: None,
            target_type: String::from_str("frequency"),
            key: String::new(),
            label: String::new(),
            priority: String::from_str("0"),
            notes: String::new(),
        }
    }

    /// The show/cancel button: hides a shown form (dropping the edit), or
    /// shows it, blank for a new target unless a target is being edited.
    pub fn toggle(&mut self)
        ensures
            final(self).visible == !old(self).visible,
            final(self).editing_id == if old(self).visible { None } else { old(self).editing_id },
            (!old(self).visible && old(self).editing_id is None) ==> {
                &&& final(self).target_type@ == "frequency"@
                &&& final(self).key@ == Seq::<char>::empty()
                &&& final(self).label@ == Seq::<char>::empty()
                &&& final(self).priority@ == "0"@
                &&& final(self).notes@ == Seq::<char>::empty()
            },
            !(!old(self).visible && old(self).editing_id is None) ==> {
                &&& final(self).target_type == old(self).target_type
                &&& final(self).key == old(self).key
                &&& final(self).label == old(self).label
                &&& final(self).priority == old(self).priority
                &&& final(self).notes == old(self).notes
            },
    {
        self.visible = !self.visible;
        if !self.visible {
            self.editing_id = None;
        }
        if self.visible && self.editing_id.is_none() {
            self.target_type = String::from_str("frequency");
            self.key = String::new();
            self.label = String::new();
            self.priority = String::from_str("0");
            self.notes = String::new();
        }
    }

    /// Opens the form on an existing target.
    pub fn edit(&mut self, id: i64, target_type: &str, key: &str, label: &Option<String>, priority: i32, notes: &Option<String>)
        ensures
            final(self).visible,
            final(self).editing_id == Some(id),
            final(self).target_type@ == target_type@,
            final(self).key@ == key@,
            final(self).label@ == match *label { Some(l) => l@, None => Seq::<char>::empty() },
            final(self).priority@ == signed_decimal(priority as int),
            final(self).notes@ == match *notes { Some(n) => n@, None => Seq::<char>::empty() },
    {
        self.editing_id = Some(id);
        self.target_type = String::from_str(target_type);
        self.key = String::from_str(key);
        self.label = match label {
            Some(l) => l.clone(),
            None => String::new(),
        };
        let mut p = String::new();
        push_signed(&mut p, priority as i64);
        self.priority = p;
        self.notes = match notes {
            Some(n) => n.clone(),
            None => String::new(),
        };
        self.visible = true;
    }

    /// Picks a target type; the key is cleared when the type changes.
    pub fn set_type(&mut self, t: &str)
        ensures
            final(self).target_type@ == t@,
            final(self).key@ == if t@ != old(self).target_type@ { Seq::<char>::empty() } else { old(self).key@ },
            final(self).visible == old(self).visible,
            final(self).editing_id == old(self).editing_id,
            final(self).label == old(self).label,
            final(self).priority == old(self).priority,
            final(self).notes == old(self).notes,
    {
        if !str_eq(self.target_type.as_str(), t) {
            self.key = String::new();
        }
        self.target_type = String::from_str(t);
    }

    /// The suggestion list for the chosen type.
    pub fn suggestion_kind(&self) -> (res: SuggestionKind)
        ensures
            res == suggestion_kind_spec(self.target_type@),
    {
        let t = self.target_type.as_str();
        if str_eq(t, "talkgroup") {
            SuggestionKind::Talkgroups
        } else if str_eq(t, "radio_id") {
            SuggestionKind::RadioIds
        } else if str_eq(t, "channel") {
            SuggestionKind::Channels
        } else if str_eq(t, "network") {
            SuggestionKind::Networks
        } else if str_eq(t, "site") {
            SuggestionKind::Sites
        } else {
            SuggestionKind::Frequencies
        }
    }

    /// The key box placeholder for the chosen type.
    pub fn key_hint(&self) -> (res: &'static str)
        ensures
            res@ == key_hint_spec(self.target_type@),
    {
        let t = self.target_type.as_str();
        if str_eq(t, "frequency") {
            "e.g. 155.7300"
        } else if str_eq(t, "talkgroup") {
            "e.g. 1001"
        } else if str_eq(t, "radio_id") {
            "e.g. 12345"
        } else if str_eq(t, "channel") {
            "channel name"
        } else if str_eq(t, "network") {
            "system name"
        } else if str_eq(t, "site") {
            "site name"
        } else {
            "key value"
        }
    }

    /// A new target can be created once a key (other than white space) is typed.
    pub fn can_create(&self) -> (res: bool)
        ensures
            res == (trimmed(self.key@).len() > 0),
    {
        trim(self.key.as_str()).unicode_len() > 0
    }

    /// What the create button sends: the type and key as typed, the label
    /// and notes when typed, and the priority (0 unless it reads as `i32`);
    /// nothing until a key is typed.
    pub fn create_request(&self) -> (res: Option<TargetCreate>)
        ensures
            res is Some == (trimmed(self.key@).len() > 0),
            res matches Some(r) ==> {
                &&& r.target_type@ == self.target_type@
                &&& r.key@ == self.key@
                &&& opt_view(r.label) == typed_text(self.label@)
                &&& r.priority == match parse_i32_spec(self.priority@) { Some(p) => p, None => 0i32 }
                &&& opt_view(r.notes) == typed_text(self.notes@)
            },
    {
        if !self.can_create() {
            return None;
        }
        let priority = match parse_i32(self.priority.as_str()) {
            Some(p) => p,
            None => 0,
        };
        Some(TargetCreate {
            target_type: self.target_type.clone(),
            key: self.key.clone(),
            label: typed(&self.label),
            priority,
            notes: typed(&self.notes),
        })
    }

    /// What the update button sends for the edited target: the label and
    /// notes when typed, and the priority when it reads as `i32`.
    pub fn update_request(&self) -> (res: Option<TargetUpdate>)
        ensures
            res is Some == self.editing_id is Some,
            res matches Some(r) ==> {
                &&& Some(r.id) == self.editing_id
                &&& opt_view(r.label) == typed_text(self.label@)
                &&& r.priority == parse_i32_spec(self.priority@)
                &&& opt_view(r.notes) == typed_text(self.notes@)
            },
    {
        match self.editing_id {
            Some(id) => Some(TargetUpdate {
                id,
                label: typed(&self.label),
                priority: parse_i32(self.priority.as_str()),
                notes: typed(&self.notes),
            }),
            None => None,
        }
    }

    /// After a successful save: the form closes and its key, label and notes
    /// are cleared, as is the edit.
    pub fn saved(&mut self)
        ensures
            !final(self).visible,
            final(self).editing_id is None,
            final(self).key@ == Seq::<char>::empty(),
            final(self).label@ == Seq::<char>::empty(),
            final(self).notes@ == Seq::<char>::empty(),
            final(self).target_type == old(self).target_type,
            final(self).priority == old(self).priority,
    {
        self.visible = false;
        self.editing_id = None;
        self.key = String::new();
        self.label = String::new();
        self.notes = String::new();
    }
}

} // verus!

verus! {

/// Whether `sep` occurs in `s` at position `i`.
pub open spec fn occurs_at(s: Seq<char>, sep: Seq<char>, i: int) -> bool {
    0 <= i && i + sep.len() <= s.len() && s.subrange(i, i + sep.len()) == sep
}

/// The text of `s` before the first occurrence of `sep` (all of `s` when
/// `sep` does not occur), as the first piece of `str::split`.
pub open spec fn before_sep(s: Seq<char>, sep: Seq<char>) -> Seq<char> {
    if exists|i: int| occurs_at(s, sep, i) {
        s.take(choose|i: int| occurs_at(s, sep, i) && forall|j: int| 0 <= j < i ==> !occurs_at(s, sep, j))
    } else {
        s
    }
}

fn first_piece<'a>(s: &'a str, sep: &str) -> (res: &'a str)
    ensures
        res@ == before_sep(s@, sep@),
{
    let a = crate::dispatch::chars_of(s);
    let b = crate::dispatch::chars_of(sep);
    let n = a.len();
    let m = b.len();
    if m > n {
        assert(!exists|i: int| occurs_at(s@, sep@, i));
        return s;
    }
    let mut i: usize = 0;
    while i <= n - m
        invariant
            a@ == s@,
            b@ == sep@,
            n == a@.len(),
            m == b@.len(),
            m <= n,
            i <= n - m + 1,
            forall|j: int| 0 <= j < i ==> !occurs_at(s@, sep@, j),
        decreases n - m + 1 - i,
    {
        let mut k: usize = 0;
        let mut same = true;
        while k < m
            invariant
                i + m <= n,
                a@.len() == n,
                b@.len() == m,
                k <= m,
                same == (forall|t: int| 0 <= t < k ==> a@[i + t] == b@[t]),
            decreases m - k,
        {
            if a[i + k] != b[k] {
                same = false;
            }
            k = k + 1;
        }
        if same {
            assert(s@.subrange(i as int, i + m) =~= sep@);
            assert(occurs_at(s@, sep@, i as int));
            proof {
                let c = choose|c: int| occurs_at(s@, sep@, c) && forall|j: int| 0 <= j < c ==> !occurs_at(s@, sep@, j);
                assert(occurs_at(s@, sep@, i as int) && forall|j: int| 0 <= j < i ==> !occurs_at(s@, sep@, j));
                if c < i {
                } else if c > i {
                }
                assert(c == i);
            }
            return s.substring_char(0, i);
        }
        assert(!occurs_at(s@, sep@, i as int)) by {
            let t = choose|t: int| 0 <= t < m && a@[i + t] != b@[t];
            assert(s@.subrange(i as int, i + m)[t] == a@[i + t]);
        }
        i = i + 1;
    }
    assert(!exists|j: int| occurs_at(s@, sep@, j)) by {
        if exists|j: int| occurs_at(s@, sep@, j) {
            let j = choose|j: int| occurs_at(s@, sep@, j);
            assert(j < i);
        }
    }
    s
}

/// The key a picked suggestion fills in: for a talkgroup the number before
/// ` — ` (trimmed), else the whole suggestion.
pub open spec fn picked_key_spec(target_type: Seq<char>, suggestion: Seq<char>) -> Seq<char> {
    if target_type == "talkgroup"@ {
        trimmed(before_sep(suggestion, " \u{2014} "@))
    } else {
        suggestion
    }
}

impl TargetForm {
    /// Fills the key from a picked suggestion.
    pub fn pick_suggestion(&mut self, suggestion: &str)
        ensures
            final(self).key@ == picked_key_spec(old(self).target_type@, suggestion@),
            final(self).target_type == old(self).target_type,
            final(self).visible == old(self).visible,
            final(self).editing_id == old(self).editing_id,
            final(self).label == old(self).label,
            final(self).priority == old(self).priority,
            final(self).notes == old(self).notes,
    {
        if str_eq(self.target_type.as_str(), "talkgroup") {
            let id_part = first_piece(suggestion, " \u{2014} ");
            self.key = String::from_str(trim(id_part));
        } else {
            self.key = String::from_str(suggestion);
        }
    }
}

/// Most suggestions listed under the key box.
pub const KEY_SUGGESTIONS: usize = 8;

/// Indices (ascending), among the first `n` suggestions, of those whose
/// lower-cased text holds `f`.
pub open spec fn suggestions_matching(sugg: Seq<String>, f: Seq<char>, n: nat) -> Seq<usize>
    decreases n,
{
    if n == 0 {
        Seq::empty()
    } else {
        let p = suggestions_matching(sugg, f, (n - 1) as nat);
        if has_substring(lowercase_of(sugg[n - 1]@), f) {
            p.push((n - 1) as usize)
        } else {
            p
        }
    }
}

proof fn lemma_matching_grows(sugg: Seq<String>, f: Seq<char>, i: nat, n: nat)
    requires
        i <= n,
    ensures
        suggestions_matching(sugg, f, i).len() <= suggestions_matching(sugg, f, n).len(),
        suggestions_matching(sugg, f, n).take(suggestions_matching(sugg, f, i).len() as int)
            == suggestions_matching(sugg, f, i),
    decreases n - i,
{
    if i < n {
        lemma_matching_grows(sugg, f, i, (n - 1) as nat);
        let a = suggestions_matching(sugg, f, i);
        let b = suggestions_matching(sugg, f, (n - 1) as nat);
        let c = suggestions_matching(sugg, f, n);
        assert(c.take(a.len() as int) =~= b.take(a.len() as int));
    } else {
        let a = suggestions_matching(sugg, f, i);
        assert(a.take(a.len() as int) =~= a);
    }
}

/// The suggestions listed under the key box: the first eight whose
/// lower-cased text holds the trimmed, lower-cased key; none while the key
/// is blank.
pub open spec fn key_suggestions_spec(sugg: Seq<String>, key: Seq<char>) -> Seq<usize> {
    let f = lowercase_of(trimmed(key));
    if f.len() == 0 {
        Seq::empty()
    } else {
        let all = suggestions_matching(sugg, f, sugg.len());
        if all.len() > KEY_SUGGESTIONS { all.take(KEY_SUGGESTIONS as int) } else { all }
    }
}

pub fn key_suggestions(suggestions: &Vec<String>, key: &str) -> (res: Vec<usize>)
    ensures
        res@ == key_suggestions_spec(suggestions@, key@),
{
    let f = to_lowercase(trim(key));
    let mut out: Vec<usize> = Vec::new();
    if f.as_str().unicode_len() == 0 {
        return out;
    }
    let mut i: usize = 0;
    while i < suggestions.len()
        invariant
            i <= suggestions@.len(),
            f@ == lowercase_of(trimmed(key@)),
            f@.len() > 0,
            out@ == suggestions_matching(suggestions@, f@, i as nat),
            out@.len() < KEY_SUGGESTIONS || i == 0,
            out@.len() <= KEY_SUGGESTIONS,
        decreases suggestions@.len() - i,
    {
        let lower = to_lowercase(suggestions[i].as_str());
        if str_contains(lower.as_str(), f.as_str()) {
            out.push(i);
        }
        i = i + 1;
        if out.len() == KEY_SUGGESTIONS {
            proof {
                lemma_matching_grows(suggestions@, f@, i as nat, suggestions@.len() as nat);
            }
            return out;
        }
    }
    out
}

} // verus!
