use vstd::prelude::*;
use crate::filters::{field_display, field_display_spec, Field};
use crate::text::{duration_text, format_duration};
use crate::strbuf::{decimal, push_decimal};
use crate::watchdog::WatchdogState;

verus! {

/// Comparison of a count against a threshold.
#[derive(Clone, Copy, Debug, PartialEq, Eq, Structural)]
pub enum CmpOp {
    Gt,
    Gte,
    Lt,
    Lte,
    Eq,
    Ne,
}

/// When an alert rule fires. `F` is the floating-point payload (threshold
/// and percentage), which this library carries but never inspects.
pub enum AlertCondition<F> {
    Threshold { op: CmpOp, value: F, window_sec: u64 },
    Absence { window_sec: u64 },
    RateChange { percent: F, window_sec: u64, baseline_sec: u64 },
    FirstOccurrence,
}

/// When a custom event rule produces an event. `F` as in `AlertCondition`.
/// Of a correlation only its window is held here: nothing in this library
/// reads the rest.
pub enum CustomEventCondition<F> {
    Every,
    Threshold { op: CmpOp, value: F, window_sec: u64 },
    Absence { window_sec: u64 },
    NewValue { field: Field, lookback_sec: u64 },
    Cardinality { field: Field, op: CmpOp, value: u64, window_sec: u64 },
    RateChange { percent: F, window_sec: u64, baseline_sec: u64 },
    Correlation { window_sec: u64 },
}

/// Number of alert condition types offered by the rule editor.
pub const ALERT_COND_TYPE_COUNT: usize = 4;

/// Number of custom condition types offered by the rule editor.
pub const CUSTOM_COND_TYPE_COUNT: usize = 6;

/// Position of an alert condition's type in the editor's list.
pub open spec fn alert_cond_type_index_spec<F>(c: AlertCondition<F>) -> usize {
    match c {
        AlertCondition::Threshold { .. } => 0,
        AlertCondition::Absence { .. } => 1,
        AlertCondition::RateChange { .. } => 2,
        AlertCondition::FirstOccurrence => 3,
    }
}

/// Position of an alert condition's type in the editor's list.
pub fn alert_cond_type_index<F>(c: &AlertCondition<F>) -> (res: usize)
    ensures
        res == alert_cond_type_index_spec(*c),
        res < ALERT_COND_TYPE_COUNT,
{
    match c {
        AlertCondition::Threshold { .. } => 0,
        AlertCondition::Absence { .. } => 1,
        AlertCondition::RateChange { .. } => 2,
        AlertCondition::FirstOccurrence => 3,
    }
}

/// Position of a custom condition's type in the editor's list; a
/// correlation is shown as a rate change, the last entry.
pub open spec fn custom_cond_type_index_spec<F>(c: CustomEventCondition<F>) -> usize {
    match c {
        CustomEventCondition::Every => 0,
        CustomEventCondition::Threshold { .. } => 1,
        CustomEventCondition::Absence { .. } => 2,
        CustomEventCondition::NewValue { .. } => 3,
        CustomEventCondition::Cardinality { .. } => 4,
        CustomEventCondition::RateChange { .. } => 5,
        CustomEventCondition::Correlation { .. } => 5,
    }
}

/// Position of a custom condition's type in the editor's list.
pub fn custom_cond_type_index<F>(c: &CustomEventCondition<F>) -> (res: usize)
    ensures
        res == custom_cond_type_index_spec(*c),
        res < CUSTOM_COND_TYPE_COUNT,
{
    match c {
        CustomEventCondition::Every => 0,
        CustomEventCondition::Threshold { .. } => 1,
        CustomEventCondition::Absence { .. } => 2,
        CustomEventCondition::NewValue { .. } => 3,
        CustomEventCondition::Cardinality { .. } => 4,
        CustomEventCondition::RateChange { .. } => 5,
        CustomEventCondition::Correlation { .. } => 5,
    }
}

/// The condition the alert editor puts in place when type `index` is
/// picked: a count of at least `threshold` within 60 s, absence for 30 s,
/// a rate change of `rate_percent` over 60 s against a one-hour baseline,
/// or a first occurrence (any later index).
pub open spec fn default_alert_condition_spec<F>(index: usize, threshold: F, rate_percent: F) -> AlertCondition<F> {
    if index == 0 {
        AlertCondition::Threshold { op: CmpOp::Gte, value: threshold, window_sec: 60 }
    } else if index == 1 {
        AlertCondition::Absence { window_sec: 30 }
    } else if index == 2 {
        AlertCondition::RateChange { percent: rate_percent, window_sec: 60, baseline_sec: 3600 }
    } else {
        AlertCondition::FirstOccurrence
    }
}

/// The condition the alert editor puts in place when type `index` is
/// picked. The editor's default threshold and percentage (5 and 200) are
/// floating-point values and come from the caller.
pub fn default_alert_condition<F>(index: usize, threshold: F, rate_percent: F) -> (res: AlertCondition<F>)
    ensures
        res == default_alert_condition_spec(index, threshold, rate_percent),
{
    if index == 0 {
        AlertCondition::Threshold { op: CmpOp::Gte, value: threshold, window_sec: 60 }
    } else if index == 1 {
        AlertCondition::Absence { window_sec: 30 }
    } else if index == 2 {
        AlertCondition::RateChange { percent: rate_percent, window_sec: 60, baseline_sec: 3600 }
    } else {
        AlertCondition::FirstOccurrence
    }
}

/// The condition the custom-rule editor puts in place when type `index` is
/// picked: every match; a count of at least `threshold` within 60 s;
/// absence for 30 s; a new talkgroup within a day; at least 3 distinct
/// bands within 10 minutes; or (any later index) a rate change of
/// `rate_percent` over 60 s against a one-hour baseline.
pub open spec fn default_custom_condition_spec<F>(index: usize, threshold: F, rate_percent: F) -> CustomEventCondition<F> {
    if index == 0 {
        CustomEventCondition::Every
    } else if index == 1 {
        CustomEventCondition::Threshold { op: CmpOp::Gte, value: threshold, window_sec: 60 }
    } else if index == 2 {
        CustomEventCondition::Absence { window_sec: 30 }
    } else if index == 3 {
        CustomEventCondition::NewValue { field: Field::Talkgroup, lookback_sec: 86400 }
    } else if index == 4 {
        CustomEventCondition::Cardinality { field: Field::Band, op: CmpOp::Gte, value: 3, window_sec: 600 }
    } else {
        CustomEventCondition::RateChange { percent: rate_percent, window_sec: 60, baseline_sec: 3600 }
    }
}

/// The condition the custom-rule editor puts in place when type `index` is
/// picked; the floating-point defaults (5 and 200) come from the caller.
pub fn default_custom_condition<F>(index: usize, threshold: F, rate_percent: F) -> (res: CustomEventCondition<F>)
    ensures
        res == default_custom_condition_spec(index, threshold, rate_percent),
{
    if index == 0 {
        CustomEventCondition::Every
    } else if index == 1 {
        CustomEventCondition::Threshold { op: CmpOp::Gte, value: threshold, window_sec: 60 }
    } else if index == 2 {
        CustomEventCondition::Absence { window_sec: 30 }
    } else if index == 3 {
        CustomEventCondition::NewValue { field: Field::Talkgroup, lookback_sec: 86400 }
    } else if index == 4 {
        CustomEventCondition::Cardinality { field: Field::Band, op: CmpOp::Gte, value: 3, window_sec: 600 }
    } else {
        CustomEventCondition::RateChange { percent: rate_percent, window_sec: 60, baseline_sec: 3600 }
    }
}

/// Picking a condition type in the editor and reading the type back gives
/// the picked entry: the default condition of each offered type has that
/// type.
pub proof fn law_condition_type_roundtrip<F>(index: usize, threshold: F, rate_percent: F)
    ensures
        index < ALERT_COND_TYPE_COUNT ==> alert_cond_type_index_spec(
            default_alert_condition_spec(index, threshold, rate_percent),
        ) == index,
        index < CUSTOM_COND_TYPE_COUNT ==> custom_cond_type_index_spec(
            default_custom_condition_spec(index, threshold, rate_percent),
        ) == index,
{
}

/// Name and description of each alert condition type, in list order.
pub open spec fn alert_cond_type_text(index: usize) -> (Seq<char>, Seq<char>) {
    if index == 0 {
        ("Threshold"@, "Alert when event count crosses a limit"@)
    } else if index == 1 {
        ("Absence"@, "Alert when events stop arriving (dead man)"@)
    } else if index == 2 {
        ("Rate Change"@, "Alert on sudden rate increase/decrease"@)
    } else {
        ("First Occurrence"@, "Alert on first matching event ever"@)
    }
}

/// Name and description of the alert condition type at `index`.
pub fn alert_cond_type(index: usize) -> (res: (&'static str, &'static str))
    requires
        index < ALERT_COND_TYPE_COUNT,
    ensures
        (res.0@, res.1@) == alert_cond_type_text(index),
{
    if index == 0 {
        ("Threshold", "Alert when event count crosses a limit")
    } else if index == 1 {
        ("Absence", "Alert when events stop arriving (dead man)")
    } else if index == 2 {
        ("Rate Change", "Alert on sudden rate increase/decrease")
    } else {
        ("First Occurrence", "Alert on first matching event ever")
    }
}

/// Name and description of each custom condition type, in list order.
pub open spec fn custom_cond_type_text(index: usize) -> (Seq<char>, Seq<char>) {
    if index == 0 {
        ("Every Match"@, "Create an event for every matching input"@)
    } else if index == 1 {
        ("Threshold"@, "Fire when match count crosses a limit"@)
    } else if index == 2 {
        ("Absence"@, "Fire when events stop arriving"@)
    } else if index == 3 {
        ("New Value"@, "Fire when an unseen field value appears"@)
    } else if index == 4 {
        ("Cardinality"@, "Fire on N distinct values of a field"@)
    } else {
        ("Rate Change"@, "Fire on sudden rate change"@)
    }
}

/// Name and description of the custom condition type at `index`, or `None`
/// past the end of the list.
pub fn custom_cond_type(index: usize) -> (res: Option<(&'static str, &'static str)>)
    ensures
        index < CUSTOM_COND_TYPE_COUNT <==> res is Some,
        res matches Some(t) ==> (t.0@, t.1@) == custom_cond_type_text(index),
{
    if index == 0 {
        Some(("Every Match", "Create an event for every matching input"))
    } else if index == 1 {
        Some(("Threshold", "Fire when match count crosses a limit"))
    } else if index == 2 {
        Some(("Absence", "Fire when events stop arriving"))
    } else if index == 3 {
        Some(("New Value", "Fire when an unseen field value appears"))
    } else if index == 4 {
        Some(("Cardinality", "Fire on N distinct values of a field"))
    } else if index == 5 {
        Some(("Rate Change", "Fire on sudden rate change"))
    } else {
        None
    }
}

/// How the condition editor shows a comparison.
pub open spec fn cmp_op_display_spec(op: CmpOp) -> Seq<char> {
    match op {
        CmpOp::Gt => "greater than (>)"@,
        CmpOp::Gte => "at least (>=)"@,
        CmpOp::Lt => "less than (<)"@,
        CmpOp::Lte => "at most (<=)"@,
        CmpOp::Eq => "equals (=)"@,
        CmpOp::Ne => "not equals (!=)"@,
    }
}

/// How the condition editor shows a comparison.
pub fn cmp_op_display(op: CmpOp) -> (res: &'static str)
    ensures
        res@ == cmp_op_display_spec(op),
{
    match op {
        CmpOp::Gt => "greater than (>)",
        CmpOp::Gte => "at least (>=)",
        CmpOp::Lt => "less than (<)",
        CmpOp::Lte => "at most (<=)",
        CmpOp::Eq => "equals (=)",
        CmpOp::Ne => "not equals (!=)",
    }
}

/// The words an alert rule's summary uses for a threshold comparison.
pub open spec fn alert_op_phrase_spec(op: CmpOp) -> Seq<char> {
    match op {
        CmpOp::Gt => "more than"@,
        CmpOp::Gte => "at least"@,
        CmpOp::Lt => "fewer than"@,
        CmpOp::Lte => "at most"@,
        CmpOp::Eq => "exactly"@,
        CmpOp::Ne => "not exactly"@,
    }
}

/// The words an alert rule's summary uses for a threshold comparison.
pub fn alert_op_phrase(op: CmpOp) -> (res: &'static str)
    ensures
        res@ == alert_op_phrase_spec(op),
{
    match op {
        CmpOp::Gt => "more than",
        CmpOp::Gte => "at least",
        CmpOp::Lt => "fewer than",
        CmpOp::Lte => "at most",
        CmpOp::Eq => "exactly",
        CmpOp::Ne => "not exactly",
    }
}

/// The words a custom rule's summary uses for a threshold comparison.
pub open spec fn custom_op_phrase_spec(op: CmpOp) -> Seq<char> {
    match op {
        CmpOp::Gte => "at least"@,
        CmpOp::Gt => "more than"@,
        _ => "threshold of"@,
    }
}

/// The words a custom rule's summary uses for a threshold comparison.
pub fn custom_op_phrase(op: CmpOp) -> (res: &'static str)
    ensures
        res@ == custom_op_phrase_spec(op),
{
    match op {
        CmpOp::Gte => "at least",
        CmpOp::Gt => "more than",
        _ => "threshold of",
    }
}

/// The words a custom rule's summary uses for a distinct-value count.
pub open spec fn cardinality_phrase_spec(op: CmpOp) -> Seq<char> {
    match op {
        CmpOp::Gte => "at least"@,
        _ => "reaching"@,
    }
}

/// The words a custom rule's summary uses for a distinct-value count.
pub fn cardinality_phrase(op: CmpOp) -> (res: &'static str)
    ensures
        res@ == cardinality_phrase_spec(op),
{
    match op {
        CmpOp::Gte => "at least",
        _ => "reaching",
    }
}

} // verus!

verus! {

/// The open editor of one kind of rule (`alert`: alert rules; otherwise
/// custom event rules).
pub open spec fn rule_expanded<R>(ws: WatchdogState<R>, alert: bool) -> Option<i64> {
    if alert {
        ws.alert_rule_expanded
    } else {
        ws.custom_rule_expanded
    }
}

/// `ws` with the open editor of one kind of rule set to `e`.
pub open spec fn with_rule_expanded<R>(ws: WatchdogState<R>, alert: bool, e: Option<i64>) -> WatchdogState<R> {
    if alert {
        WatchdogState { alert_rule_expanded: e, ..ws }
    } else {
        WatchdogState { custom_rule_expanded: e, ..ws }
    }
}

/// After the delete button of a rule: that rule awaits confirmation.
pub open spec fn ask_delete_spec<R>(ws: WatchdogState<R>, id: i64, alert: bool) -> WatchdogState<R> {
    WatchdogState { rule_delete_confirm: Some((id, alert)), ..ws }
}

/// After Cancel: no rule awaits confirmation.
pub open spec fn cancel_delete_spec<R>(ws: WatchdogState<R>) -> WatchdogState<R> {
    WatchdogState { rule_delete_confirm: None, ..ws }
}

/// After Confirm: the pending rule is to be deleted, its kind's editor
/// closes and a refresh is due; with nothing pending nothing changes.
pub open spec fn confirm_delete_spec<R>(ws: WatchdogState<R>) -> WatchdogState<R> {
    match ws.rule_delete_confirm {
        Some((_, alert)) => with_rule_expanded(
            WatchdogState { rule_delete_confirm: None, force_refresh: true, ..ws },
            alert,
            None,
        ),
        None => ws,
    }
}

/// After a click on a rule's name: its editor opens, or closes when it was
/// the open one.
pub open spec fn click_rule_spec<R>(ws: WatchdogState<R>, id: i64, alert: bool) -> WatchdogState<R> {
    if rule_expanded(ws, alert) == Some(id) {
        with_rule_expanded(ws, alert, None)
    } else {
        with_rule_expanded(ws, alert, Some(id))
    }
}

impl<R> WatchdogState<R> {
    /// Whether the rule `id` (an alert rule when `alert`) awaits delete
    /// confirmation.
    pub fn is_deleting(&self, id: i64, alert: bool) -> (res: bool)
        ensures
            res == (self.rule_delete_confirm == Some((id, alert))),
    {
        match self.rule_delete_confirm {
            Some((pending, kind)) => pending == id && kind == alert,
            None => false,
        }
    }

    /// Whether the editor of rule `id` (an alert rule when `alert`) is open.
    pub fn is_rule_expanded(&self, id: i64, alert: bool) -> (res: bool)
        ensures
            res == (rule_expanded(*self, alert) == Some(id)),
    {
        let open = if alert { self.alert_rule_expanded } else { self.custom_rule_expanded };
        match open {
            Some(e) => e == id,
            None => false,
        }
    }

    /// The delete button of a rule was pressed: ask for confirmation.
    pub fn ask_delete(&mut self, id: i64, alert: bool)
        ensures
            *final(self) == ask_delete_spec(*old(self), id, alert),
    {
        self.rule_delete_confirm = Some((id, alert));
    }

    /// Cancel was pressed: drop the pending confirmation.
    pub fn cancel_delete(&mut self)
        ensures
            *final(self) == cancel_delete_spec(*old(self)),
    {
        self.rule_delete_confirm = None;
    }

    /// Confirm was pressed: returns the rule to delete (its id and whether it
    /// is an alert rule), closes that kind's editor and asks for a refresh.
    pub fn confirm_delete(&mut self) -> (res: Option<(i64, bool)>)
        ensures
            res == old(self).rule_delete_confirm,
            *final(self) == confirm_delete_spec(*old(self)),
    {
        let pending = self.rule_delete_confirm;
        match pending {
            Some((_, alert)) => {
                self.rule_delete_confirm = None;
                self.force_refresh = true;
                if alert {
                    self.alert_rule_expanded = None;
                } else {
                    self.custom_rule_expanded = None;
                }
            },
            None => {},
        }
        pending
    }

    /// A rule's name was clicked: opens its editor, or closes it when it was
    /// open. Returns whether the editor is now open (the caller then copies
    /// the rule into its editing buffer, or drops that buffer).
    pub fn click_rule(&mut self, id: i64, alert: bool) -> (open: bool)
        ensures
            open == (rule_expanded(*old(self), alert) != Some(id)),
            *final(self) == click_rule_spec(*old(self), id, alert),
    {
        let open = !self.is_rule_expanded(id, alert);
        let next = if open { Some(id) } else { None };
        if alert {
            self.alert_rule_expanded = next;
        } else {
            self.custom_rule_expanded = next;
        }
        open
    }

    /// The open editor's rule was saved: the editor closes and a refresh is
    /// due.
    pub fn rule_saved(&mut self, alert: bool)
        ensures
            *final(self) == with_rule_expanded(WatchdogState { force_refresh: true, ..*old(self) }, alert, None),
    {
        self.force_refresh = true;
        if alert {
            self.alert_rule_expanded = None;
        } else {
            self.custom_rule_expanded = None;
        }
    }

    /// A new rule was stored under `id`: its editor opens and a refresh is
    /// due.
    pub fn rule_created(&mut self, id: i64, alert: bool)
        ensures
            *final(self) == with_rule_expanded(WatchdogState { force_refresh: true, ..*old(self) }, alert, Some(id)),
    {
        self.force_refresh = true;
        if alert {
            self.alert_rule_expanded = Some(id);
        } else {
            self.custom_rule_expanded = Some(id);
        }
    }
}

/// Deleting takes two steps: confirming right after asking deletes exactly
/// the rule that was asked about, leaves nothing pending and closes that
/// kind's editor; cancelling instead leaves the state as if the delete
/// button had not been pressed (but for any earlier pending request, which
/// is dropped too).
pub proof fn law_delete_two_steps<R>(ws: WatchdogState<R>, id: i64, alert: bool)
    ensures
        ask_delete_spec(ws, id, alert).rule_delete_confirm == Some((id, alert)),
        confirm_delete_spec(ask_delete_spec(ws, id, alert)).rule_delete_confirm is None,
        rule_expanded(confirm_delete_spec(ask_delete_spec(ws, id, alert)), alert) is None,
        rule_expanded(confirm_delete_spec(ask_delete_spec(ws, id, alert)), !alert) == rule_expanded(ws, !alert),
        cancel_delete_spec(ask_delete_spec(ws, id, alert)) == cancel_delete_spec(ws),
{
}

/// With no editor of that kind open, opening a rule's editor and clicking
/// it again returns to the same state; at most one editor of each kind is
/// open, and a click never touches the other kind's editor.
pub proof fn law_rule_click_twice<R>(ws: WatchdogState<R>, id: i64, alert: bool)
    ensures
        rule_expanded(ws, alert) is None ==> click_rule_spec(click_rule_spec(ws, id, alert), id, alert) == ws,
        rule_expanded(click_rule_spec(ws, id, alert), !alert) == rule_expanded(ws, !alert),
{
}

} // verus!

verus! {

/// Summary of an alert condition in words. `number` is the condition's
/// floating-point operand (threshold or percentage) written with no
/// decimals; conditions without one ignore it.
pub open spec fn alert_condition_text_spec<F>(c: AlertCondition<F>, number: Seq<char>) -> Seq<char> {
    match c {
        AlertCondition::Threshold { op, window_sec, .. } => alert_op_phrase_spec(op) + " "@ + number
            + " matching events within "@ + duration_text(window_sec as nat),
        AlertCondition::Absence { window_sec } => "no matching events for "@ + duration_text(window_sec as nat),
        AlertCondition::RateChange { window_sec, baseline_sec, .. } => "event rate changes by more than "@ + number
            + "% (comparing "@ + duration_text(window_sec as nat) + " window to "@
            + duration_text(baseline_sec as nat) + " baseline)"@,
        AlertCondition::FirstOccurrence => "a matching event is seen for the first time"@,
    }
}

/// Summary of an alert condition in words (see `alert_condition_text_spec`).
pub fn alert_condition_text<F>(c: &AlertCondition<F>, number: &str) -> (res: String)
    ensures
        res@ == alert_condition_text_spec(*c, number@),
{
    let mut s = String::new();
    match c {
        AlertCondition::Threshold { op, window_sec, .. } => {
            s.append(alert_op_phrase(*op));
            s.append(" ");
            s.append(number);
            s.append(" matching events within ");
            s.append(format_duration(*window_sec).as_str());
        },
        AlertCondition::Absence { window_sec } => {
            s.append("no matching events for ");
            s.append(format_duration(*window_sec).as_str());
        },
        AlertCondition::RateChange { window_sec, baseline_sec, .. } => {
            s.append("event rate changes by more than ");
            s.append(number);
            s.append("% (comparing ");
            s.append(format_duration(*window_sec).as_str());
            s.append(" window to ");
            s.append(format_duration(*baseline_sec).as_str());
            s.append(" baseline)");
        },
        AlertCondition::FirstOccurrence => {
            s.append("a matching event is seen for the first time");
        },
    }
    s
}

/// Summary of a custom condition in words; `number` as for alert
/// conditions.
pub open spec fn custom_condition_text_spec<F>(c: CustomEventCondition<F>, number: Seq<char>) -> Seq<char> {
    match c {
        CustomEventCondition::Every => "every matching event"@,
        CustomEventCondition::Threshold { op, window_sec, .. } => custom_op_phrase_spec(op) + " "@ + number
            + " matches in "@ + duration_text(window_sec as nat),
        CustomEventCondition::Absence { window_sec } => "no matches for "@ + duration_text(window_sec as nat),
        CustomEventCondition::NewValue { field, lookback_sec } => "a new "@ + field_display_spec(field)
            + " value (not seen in "@ + duration_text(lookback_sec as nat) + ")"@,
        CustomEventCondition::Cardinality { field, op, value, window_sec } => cardinality_phrase_spec(op) + " "@
            + decimal(value as nat) + " distinct "@ + field_display_spec(field) + " values in "@
            + duration_text(window_sec as nat),
        CustomEventCondition::RateChange { .. } => "rate changes by >"@ + number + "%"@,
        CustomEventCondition::Correlation { .. } => "correlated events detected"@,
    }
}

/// Summary of a custom condition in words (see `custom_condition_text_spec`).
pub fn custom_condition_text<F>(c: &CustomEventCondition<F>, number: &str) -> (res: String)
    ensures
        res@ == custom_condition_text_spec(*c, number@),
{
    let mut s = String::new();
    match c {
        CustomEventCondition::Every => {
            s.append("every matching event");
        },
        CustomEventCondition::Threshold { op, window_sec, .. } => {
            s.append(custom_op_phrase(*op));
            s.append(" ");
            s.append(number);
            s.append(" matches in ");
            s.append(format_duration(*window_sec).as_str());
        },
        CustomEventCondition::Absence { window_sec } => {
            s.append("no matches for ");
            s.append(format_duration(*window_sec).as_str());
        },
        CustomEventCondition::NewValue { field, lookback_sec } => {
            s.append("a new ");
            s.append(field_display(field));
            s.append(" value (not seen in ");
            s.append(format_duration(*lookback_sec).as_str());
            s.append(")");
        },
        CustomEventCondition::Cardinality { field, op, value, window_sec } => {
            s.append(cardinality_phrase(*op));
            s.append(" ");
            push_decimal(&mut s, *value);
            s.append(" distinct ");
            s.append(field_display(field));
            s.append(" values in ");
            s.append(format_duration(*window_sec).as_str());
        },
        CustomEventCondition::RateChange { .. } => {
            s.append("rate changes by >");
            s.append(number);
            s.append("%");
        },
        CustomEventCondition::Correlation { .. } => {
            s.append("correlated events detected");
        },
    }
    s
}

/// One filter of a rule in words: the field's name, then its operand text
/// in quotes.
pub open spec fn filter_clause_spec(field: Field, value: Seq<char>) -> Seq<char> {
    field_display_spec(field) + " is \""@ + value + "\""@
}

/// The filters of a rule in words, joined by ` AND `, from the `k` first.
pub open spec fn filter_clauses_spec(parts: Seq<(Field, Seq<char>)>, k: nat) -> Seq<char>
    decreases k,
{
    if k == 0 {
        Seq::empty()
    } else if k == 1 {
        filter_clause_spec(parts[0].0, parts[0].1)
    } else {
        filter_clauses_spec(parts, (k - 1) as nat) + " AND "@ + filter_clause_spec(parts[k - 1].0, parts[k - 1].1)
    }
}

/// What a rule watches, in words: `any event` without filters, else each
/// filter (its field and shown operand text) joined by ` AND `.
pub open spec fn watching_text_spec(parts: Seq<(Field, Seq<char>)>) -> Seq<char> {
    if parts.len() == 0 {
        "any event"@
    } else {
        filter_clauses_spec(parts, parts.len())
    }
}

/// The natural-language summary an alert rule's editor shows: `Alert when`,
/// the condition in words, then what the rule watches. `parts` holds each
/// filter's field and shown operand text, in order.
pub open spec fn alert_rule_summary_spec<F>(c: AlertCondition<F>, number: Seq<char>, parts: Seq<(Field, Seq<char>)>) -> Seq<char> {
    "Alert when "@ + alert_condition_text_spec(c, number) + " — watching "@ + watching_text_spec(parts)
}

/// The natural-language summary of an alert rule (see
/// `alert_rule_summary_spec`).
pub fn alert_rule_summary<F>(c: &AlertCondition<F>, number: &str, parts: &Vec<(Field, String)>) -> (res: String)
    ensures
        res@ == alert_rule_summary_spec(*c, number@, parts@.map_values(|p: (Field, String)| (p.0, p.1@))),
{
    let ghost pv = parts@.map_values(|p: (Field, String)| (p.0, p.1@));
    let mut s = String::new();
    s.append("Alert when ");
    let cond = alert_condition_text(c, number);
    s.append(cond.as_str());
    s.append(" — watching ");
    let ghost head = s@;
    if parts.len() == 0 {
        s.append("any event");
    } else {
        let mut i: usize = 0;
        while i < parts.len()
            invariant
                i <= parts@.len(),
                pv == parts@.map_values(|p: (Field, String)| (p.0, p.1@)),
                s@ == head + filter_clauses_spec(pv, i as nat),
            decreases parts@.len() - i,
        {
            let ghost before = s@;
            if i > 0 {
                s.append(" AND ");
            }
            s.append(field_display(&parts[i].0));
            s.append(" is \"");
            s.append(parts[i].1.as_str());
            s.append("\"");
            assert(pv[i as int] == (parts@[i as int].0, parts@[i as int].1@));
            if i == 0 {
                assert(s@ =~= head + filter_clauses_spec(pv, 1));
            } else {
                assert(s@ =~= head + filter_clauses_spec(pv, (i + 1) as nat));
            }
            i = i + 1;
        }
    }
    assert(s@ =~= alert_rule_summary_spec(*c, number@, pv));
    s
}

} // verus!
