use vstd::prelude::*;
use std::collections::VecDeque;
use vstd::string::{StrSliceExecFns, StringExecFns};
use crate::filters::{Field, Filter, FilterValue, FilterView, ValueView};
use crate::labels::{is_network_noise, is_network_noise_spec, time_range_ns, time_range_spec};
use crate::parsing::{parse_u8, parse_u8_spec};
use crate::strbuf::{contains_char, decimal, push_decimal, replace_char, replace_char_exec, str_eq};
use crate::palette::{AlertPriority, Swatch, ThemeColor};
use crate::waterfall::keep_newest;
use crate::text::{utc_stamp, utc_stamp_spec};
use crate::suggest::{compare_texts, text_lt};
use crate::dispatch::chars_of;

verus! {

/// Most live-tail entries kept in memory.
pub const LIVE_TAIL_MAX: usize = 200;

/// State of the WATCHDOG view that its decisions read and write: the live
/// tail of streamed records of type `R`, the event-query filters and page,
/// and the dashboard counters. Clock readings stay with the caller.
pub struct WatchdogState<R> {
    /// Newest record first, at most `LIVE_TAIL_MAX`.
    pub live_tail: VecDeque<R>,
    pub live_tail_paused: bool,
    /// Minimum severity shown in the live tail.
    pub live_tail_min_severity: u8,
    /// Hide network housekeeping in the live tail.
    pub live_tail_tactical: bool,
    /// Records taken into the live tail in the current rate window.
    pub live_tail_rate_count: u32,
    /// Refresh on the next poll regardless of the interval.
    pub force_refresh: bool,
    pub event_type_filter: String,
    pub event_severity_filter: String,
    pub event_band_filter: String,
    pub event_source_filter: String,
    /// Time range preset index (see `time_range_ns`).
    pub event_time_range: usize,
    pub event_expanded: Option<usize>,
    pub events_initialized: bool,
    pub query_results: Vec<R>,
    pub query_total: u64,
    pub query_offset: usize,
    pub total_event_count: u64,
    pub active_alert_count: usize,
    pub unacked_firing_count: usize,
    pub cs_new_emitter_count: usize,
    pub cs_anomaly_count: usize,
    pub cs_uid_mismatch_count: usize,
    pub cs_baseline_deviation_count: usize,
    pub cs_threat_score: u32,
    /// Alert rule whose editor is open.
    pub alert_rule_expanded: Option<i64>,
    /// Custom event rule whose editor is open.
    pub custom_rule_expanded: Option<i64>,
    /// Rule awaiting delete confirmation, and whether it is an alert rule
    /// (`false`: a custom event rule).
    pub rule_delete_confirm: Option<(i64, bool)>,
    /// Baseline profile shown; `"all"` shows every profile.
    pub baseline_active_profile: String,
}

/// Whether a streamed record with this event type enters the live tail.
pub open spec fn live_accepts(paused: bool, tactical: bool, event_type: Seq<char>) -> bool {
    !paused && !(tactical && is_network_noise_spec(event_type))
}

/// The state a WATCHDOG view starts in: live tail running with the
/// tactical filter on and every severity shown, a refresh pending, the
/// 24-hour range selected, no rule editor open, every baseline profile
/// shown, all counts zero.
pub open spec fn is_initial_state<R>(ws: WatchdogState<R>) -> bool {
    &&& ws.live_tail@ == Seq::<R>::empty()
    &&& !ws.live_tail_paused
    &&& ws.live_tail_min_severity == 0
    &&& ws.live_tail_tactical
    &&& ws.live_tail_rate_count == 0
    &&& ws.force_refresh
    &&& ws.event_type_filter@ == Seq::<char>::empty()
    &&& ws.event_severity_filter@ == Seq::<char>::empty()
    &&& ws.event_band_filter@ == Seq::<char>::empty()
    &&& ws.event_source_filter@ == Seq::<char>::empty()
    &&& ws.event_time_range == 2
    &&& ws.event_expanded is None
    &&& !ws.events_initialized
    &&& ws.query_results@ == Seq::<R>::empty()
    &&& ws.query_total == 0
    &&& ws.query_offset == 0
    &&& ws.total_event_count == 0
    &&& ws.active_alert_count == 0
    &&& ws.unacked_firing_count == 0
    &&& ws.cs_new_emitter_count == 0
    &&& ws.cs_anomaly_count == 0
    &&& ws.cs_uid_mismatch_count == 0
    &&& ws.cs_baseline_deviation_count == 0
    &&& ws.cs_threat_score == 0
    &&& ws.alert_rule_expanded is None
    &&& ws.custom_rule_expanded is None
    &&& ws.rule_delete_confirm is None
    &&& ws.baseline_active_profile@ == "all"@
}

impl<R> Default for WatchdogState<R> {
    fn default() -> (res: Self)
        ensures
            is_initial_state(res),
    {
        WatchdogState::new()
    }
}

impl<R> WatchdogState<R> {
    /// The initial state (see `is_initial_state`).
    pub fn new() -> (res: Self)
        ensures
            is_initial_state(res),
    {
        WatchdogState {
            live_tail: VecDeque::new(),
            live_tail_paused: false,
            live_tail_min_severity: 0,
            live_tail_tactical: true,
            live_tail_rate_count: 0,
            force_refresh: true,
            event_type_filter: String::new(),
            event_severity_filter: String::new(),
            event_band_filter: String::new(),
            event_source_filter: String::new(),
            event_time_range: 2,
            event_expanded: None,
            events_initialized: false,
            query_results: Vec::new(),
            query_total: 0,
            query_offset: 0,
            total_event_count: 0,
            active_alert_count: 0,
            unacked_firing_count: 0,
            cs_new_emitter_count: 0,
            cs_anomaly_count: 0,
            cs_uid_mismatch_count: 0,
            cs_baseline_deviation_count: 0,
            cs_threat_score: 0,
            alert_rule_expanded: None,
            custom_rule_expanded: None,
            rule_delete_confirm: None,
            baseline_active_profile: String::from_str("all"),
        }
    }

    /// Adds a streamed record (whose event type is `event_type`) to the live
    /// tail, newest first, unless the tail is paused or the tactical filter
    /// hides it; the oldest entries beyond `LIVE_TAIL_MAX` are dropped.
    /// Returns whether the record was taken (the caller then stamps the
    /// time of the last received event).
    pub fn push_live_event(&mut self, record: R, event_type: &str) -> (accepted: bool)
        requires
            live_accepts(old(self).live_tail_paused, old(self).live_tail_tactical, event_type@)
                ==> old(self).live_tail_rate_count < u32::MAX,
        ensures
            accepted == live_accepts(old(self).live_tail_paused, old(self).live_tail_tactical, event_type@),
            !accepted ==> *final(self) == *old(self),
            accepted ==> {
                &&& final(self).live_tail@ == keep_newest(seq![record] + old(self).live_tail@, LIVE_TAIL_MAX as nat)
                &&& final(self).live_tail_rate_count == old(self).live_tail_rate_count + 1
                &&& *final(self) == (WatchdogState {
                    live_tail: final(self).live_tail,
                    live_tail_rate_count: final(self).live_tail_rate_count,
                    ..*old(self)
                })
            },
            accepted ==> final(self).live_tail@.len() <= LIVE_TAIL_MAX,
            old(self).live_tail@.len() <= LIVE_TAIL_MAX ==> final(self).live_tail@.len() <= LIVE_TAIL_MAX,
    {
        if self.live_tail_paused {
            return false;
        }
        if self.live_tail_tactical && is_network_noise(event_type) {
            return false;
        }
        self.live_tail_rate_count = self.live_tail_rate_count + 1;
        let ghost start = seq![record] + self.live_tail@;
        self.live_tail.push_front(record);
        assert(self.live_tail@ =~= start.take(self.live_tail@.len() as int));
        while self.live_tail.len() > LIVE_TAIL_MAX
            invariant
                start.len() >= self.live_tail@.len(),
                self.live_tail@ == start.take(self.live_tail@.len() as int),
                self.live_tail@.len() >= LIVE_TAIL_MAX || self.live_tail@.len() == start.len(),
                self.live_tail_paused == old(self).live_tail_paused,
                self.live_tail_tactical == old(self).live_tail_tactical,
                self.live_tail_min_severity == old(self).live_tail_min_severity,
                self.live_tail_rate_count == old(self).live_tail_rate_count + 1,
                self.force_refresh == old(self).force_refresh,
                self.event_type_filter == old(self).event_type_filter,
                self.event_severity_filter == old(self).event_severity_filter,
                self.event_band_filter == old(self).event_band_filter,
                self.event_source_filter == old(self).event_source_filter,
                self.event_time_range == old(self).event_time_range,
                self.event_expanded == old(self).event_expanded,
                self.events_initialized == old(self).events_initialized,
                self.query_results == old(self).query_results,
                self.query_total == old(self).query_total,
                self.query_offset == old(self).query_offset,
                self.total_event_count == old(self).total_event_count,
                self.active_alert_count == old(self).active_alert_count,
                self.unacked_firing_count == old(self).unacked_firing_count,
                self.cs_new_emitter_count == old(self).cs_new_emitter_count,
                self.cs_anomaly_count == old(self).cs_anomaly_count,
                self.cs_uid_mismatch_count == old(self).cs_uid_mismatch_count,
                self.cs_baseline_deviation_count == old(self).cs_baseline_deviation_count,
                self.cs_threat_score == old(self).cs_threat_score,
                self.alert_rule_expanded == old(self).alert_rule_expanded,
                self.custom_rule_expanded == old(self).custom_rule_expanded,
                self.rule_delete_confirm == old(self).rule_delete_confirm,
                self.baseline_active_profile == old(self).baseline_active_profile,
            decreases self.live_tail@.len(),
        {
            self.live_tail.pop_back();
        }
        assert(self.live_tail@ =~= keep_newest(start, LIVE_TAIL_MAX as nat));
        true
    }

    /// Number of records counted since the rate window was last closed.
    pub fn rate_count(&self) -> (res: u32)
        ensures
            res == self.live_tail_rate_count,
    {
        self.live_tail_rate_count
    }

    /// Closes the current rate window: returns its count and starts a new one.
    pub fn take_rate_count(&mut self) -> (res: u32)
        ensures
            res == old(self).live_tail_rate_count,
            final(self).live_tail_rate_count == 0,
            *final(self) == (WatchdogState { live_tail_rate_count: 0, ..*old(self) }),
    {
        let n = self.live_tail_rate_count;
        self.live_tail_rate_count = 0;
        n
    }

    /// Picks the live tail's minimum severity from the offered levels
    /// (`ALL`, `INFO+`, `WARN+`, `ERROR+`).
    pub fn set_min_severity(&mut self, choice: usize)
        requires
            choice < 4,
        ensures
            final(self).live_tail_min_severity == sev_filter_level(choice),
            *final(self) == (WatchdogState { live_tail_min_severity: final(self).live_tail_min_severity, ..*old(self) }),
    {
        let (_, level) = sev_filter_choice(choice);
        self.live_tail_min_severity = level;
    }

    /// Empties the live tail.
    pub fn clear_live_tail(&mut self)
        ensures
            final(self).live_tail@ == Seq::<R>::empty(),
            *final(self) == (WatchdogState { live_tail: final(self).live_tail, ..*old(self) }),
    {
        self.live_tail.clear();
    }
}

/// Minimum severity of each live-tail filter level, in display order.
pub open spec fn sev_filter_level(choice: usize) -> u8 {
    if choice == 0 {
        0
    } else if choice == 1 {
        9
    } else if choice == 2 {
        13
    } else {
        17
    }
}

/// Label of each live-tail filter level, in display order.
pub open spec fn sev_filter_label(choice: usize) -> Seq<char> {
    if choice == 0 {
        "ALL"@
    } else if choice == 1 {
        "INFO+"@
    } else if choice == 2 {
        "WARN+"@
    } else {
        "ERROR+"@
    }
}

/// Number of live-tail filter levels.
pub const SEV_FILTER_COUNT: usize = 4;

/// Label and minimum severity of the live-tail filter level `choice`.
pub fn sev_filter_choice(choice: usize) -> (res: (&'static str, u8))
    requires
        choice < SEV_FILTER_COUNT,
    ensures
        res.0@ == sev_filter_label(choice),
        res.1 == sev_filter_level(choice),
{
    if choice == 0 {
        ("ALL", 0)
    } else if choice == 1 {
        ("INFO+", 9)
    } else if choice == 2 {
        ("WARN+", 13)
    } else {
        ("ERROR+", 17)
    }
}

} // verus!

verus! {

/// The filters of an events-tab query: event type (a `LIKE` pattern, with
/// `*` read as `%`, when it holds `%` or `*`), severity and source (when
/// they parse as `u8`), and band, each only when its box is filled.
pub open spec fn event_filters_spec<F>(
    t: Seq<char>,
    sev: Seq<char>,
    band: Seq<char>,
    src: Seq<char>,
) -> Seq<FilterView<F>> {
    let a: Seq<FilterView<F>> = if t.len() == 0 {
        Seq::empty()
    } else if t.contains('%') || t.contains('*') {
        seq![FilterView::Like(Field::EventType, replace_char(t, '*', '%'))]
    } else {
        seq![FilterView::Eq(Field::EventType, ValueView::Text(t))]
    };
    let b: Seq<FilterView<F>> = match parse_u8_spec(sev) {
        Some(v) => seq![FilterView::Eq(Field::Severity, ValueView::Int(v as i64))],
        None => Seq::empty(),
    };
    let c: Seq<FilterView<F>> = if band.len() == 0 {
        Seq::empty()
    } else {
        seq![FilterView::Eq(Field::Band, ValueView::Text(band))]
    };
    let d: Seq<FilterView<F>> = match parse_u8_spec(src) {
        Some(v) => seq![FilterView::Eq(Field::Source, ValueView::Int(v as i64))],
        None => Seq::empty(),
    };
    a + b + c + d
}

/// Views of a list of filters.
pub open spec fn filter_views<F>(v: Seq<Filter<F>>) -> Seq<FilterView<F>> {
    v.map_values(|f: Filter<F>| f@)
}

impl<R> WatchdogState<R> {
    /// The filters the events tab queries with, from its four filter boxes.
    pub fn event_filters<F>(&self) -> (res: Vec<Filter<F>>)
        ensures
            filter_views(res@) == event_filters_spec::<F>(
                self.event_type_filter@,
                self.event_severity_filter@,
                self.event_band_filter@,
                self.event_source_filter@,
            ),
    {
        let mut out: Vec<Filter<F>> = Vec::new();
        let t = self.event_type_filter.as_str();
        if t.unicode_len() > 0 {
            if contains_char(t, '%') || contains_char(t, '*') {
                out.push(Filter::Like(Field::EventType, replace_char_exec(t, '*', '%')));
            } else {
                out.push(Filter::Eq(Field::EventType, FilterValue::String(self.event_type_filter.clone())));
            }
        }
        let ghost a = filter_views(out@);
        if self.event_severity_filter.unicode_len() > 0 {
            match parse_u8(self.event_severity_filter.as_str()) {
                Some(v) => out.push(Filter::Eq(Field::Severity, FilterValue::Int(v as i64))),
                None => {},
            }
        }
        let ghost ab = filter_views(out@);
        if self.event_band_filter.unicode_len() > 0 {
            out.push(Filter::Eq(Field::Band, FilterValue::String(self.event_band_filter.clone())));
        }
        let ghost abc = filter_views(out@);
        if self.event_source_filter.unicode_len() > 0 {
            match parse_u8(self.event_source_filter.as_str()) {
                Some(v) => out.push(Filter::Eq(Field::Source, FilterValue::Int(v as i64))),
                None => {},
            }
        }
        proof {
            let t = self.event_type_filter@;
            let sev = self.event_severity_filter@;
            let src = self.event_source_filter@;
            if sev.len() == 0 {
                assert(parse_u8_spec(sev) is None);
            }
            if src.len() == 0 {
                assert(parse_u8_spec(src) is None);
            }
            assert(filter_views(out@) =~= event_filters_spec::<F>(
                t,
                sev,
                self.event_band_filter@,
                src,
            ));
        }
        out
    }

    /// The query window `(start, end)` in nanoseconds for the selected time
    /// range, ending at `now_ns` (the start saturates at zero).
    pub fn event_time_window(&self, now_ns: u64) -> (res: (u64, u64))
        ensures
            res.1 == now_ns,
            res.0 == if now_ns >= time_range_spec(self.event_time_range) {
                now_ns - time_range_spec(self.event_time_range)
            } else {
                0
            },
    {
        let range = time_range_ns(self.event_time_range);
        (now_ns.saturating_sub(range), now_ns)
    }

    /// Takes in what the events query returned: the total count and the page
    /// of results, each when its query succeeded. The expanded row is reset and
    /// the tab marked initialized.
    pub fn finish_event_query(&mut self, total: Option<u64>, results: Option<Vec<R>>)
        ensures
            final(self).query_total == match total {
                Some(n) => n,
                None => old(self).query_total,
            },
            final(self).query_results@ == match results {
                Some(v) => v@,
                None => old(self).query_results@,
            },
            final(self).event_expanded is None,
            final(self).events_initialized,
            *final(self) == (WatchdogState {
                query_total: final(self).query_total,
                query_results: final(self).query_results,
                event_expanded: None,
                events_initialized: true,
                ..*old(self)
            }),
    {
        match total {
            Some(n) => {
                self.query_total = n;
            },
            None => {},
        }
        match results {
            Some(v) => {
                self.query_results = v;
            },
            None => {},
        }
        self.event_expanded = None;
        self.events_initialized = true;
    }

    /// Decides whether the periodic database refresh runs now. It runs when
    /// a refresh is forced or the poll interval has elapsed; a forced refresh
    /// also re-runs the events query. Running clears the force flag.
    pub fn begin_poll(&mut self, interval_elapsed: bool) -> (run: bool)
        ensures
            run == (old(self).force_refresh || interval_elapsed),
            !run ==> *final(self) == *old(self),
            run ==> *final(self) == (WatchdogState {
                force_refresh: false,
                events_initialized: if old(self).force_refresh { false } else { old(self).events_initialized },
                ..*old(self)
            }),
    {
        if !self.force_refresh && !interval_elapsed {
            return false;
        }
        if self.force_refresh {
            self.events_initialized = false;
        }
        self.force_refresh = false;
        true
    }
}

} // verus!

verus! {

/// `x * k` saturated at `u32::MAX`.
pub open spec fn sat_mul(x: u32, k: u32) -> u32 {
    if x * k > u32::MAX { u32::MAX } else { (x * k) as u32 }
}

/// `x + y` saturated at `u32::MAX`.
pub open spec fn sat_add(x: u32, y: u32) -> u32 {
    if x + y > u32::MAX { u32::MAX } else { (x + y) as u32 }
}

fn saturating_mul_u32(x: u32, k: u32) -> (r: u32)
    ensures
        r == sat_mul(x, k),
{
    match x.checked_mul(k) {
        Some(v) => v,
        None => u32::MAX,
    }
}

/// Composite counter-surveillance threat score: new emitters weigh 3,
/// anomalies 2, UID mismatches 5 and baseline deviations 1. Counts are taken
/// as `u32` (`as` casts) and the arithmetic saturates.
pub open spec fn threat_score_spec(emitters: usize, anomalies: usize, uid_mismatches: usize, deviations: usize) -> u32 {
    sat_add(
        sat_add(sat_add(sat_mul(emitters as u32, 3), sat_mul(anomalies as u32, 2)), sat_mul(uid_mismatches as u32, 5)),
        deviations as u32,
    )
}

pub fn threat_score(emitters: usize, anomalies: usize, uid_mismatches: usize, deviations: usize) -> (res: u32)
    ensures
        res == threat_score_spec(emitters, anomalies, uid_mismatches, deviations),
{
    let e = saturating_mul_u32(emitters as u32, 3);
    let a = saturating_mul_u32(anomalies as u32, 2);
    let u = saturating_mul_u32(uid_mismatches as u32, 5);
    e.saturating_add(a).saturating_add(u).saturating_add(deviations as u32)
}

/// Number of `false` entries.
pub open spec fn count_false(s: Seq<bool>) -> nat
    decreases s.len(),
{
    if s.len() == 0 {
        0
    } else {
        count_false(s.drop_last()) + if s.last() { 0nat } else { 1nat }
    }
}

/// Number of `true` entries.
pub open spec fn count_true(s: Seq<bool>) -> nat
    decreases s.len(),
{
    if s.len() == 0 {
        0
    } else {
        count_true(s.drop_last()) + if s.last() { 1nat } else { 0nat }
    }
}

/// Counts the entries equal to `want`.
pub fn count_flags(flags: &[bool], want: bool) -> (res: usize)
    ensures
        res == if want { count_true(flags@) } else { count_false(flags@) },
{
    let mut n: usize = 0;
    let mut i: usize = 0;
    while i < flags.len()
        invariant
            i <= flags@.len(),
            n <= i,
            n == if want { count_true(flags@.take(i as int)) } else { count_false(flags@.take(i as int)) },
        decreases flags@.len() - i,
    {
        assert(flags@.take(i + 1).drop_last() =~= flags@.take(i as int));
        if flags[i] == want {
            n = n + 1;
        }
        i = i + 1;
    }
    assert(flags@.take(flags@.len() as int) =~= flags@);
    n
}

impl<R> WatchdogState<R> {
    /// Takes in the dashboard figures every poll refreshes: the
    /// acknowledgement flags of the recent alert firings and the total event
    /// count, each when its query succeeded.
    pub fn record_dashboard(&mut self, firing_acks: Option<&[bool]>, event_count: Option<u64>)
        ensures
            final(self).unacked_firing_count == match firing_acks {
                Some(a) => count_false(a@),
                None => old(self).unacked_firing_count as nat,
            },
            final(self).total_event_count == match event_count {
                Some(n) => n,
                None => old(self).total_event_count,
            },
            *final(self) == (WatchdogState {
                unacked_firing_count: final(self).unacked_firing_count,
                total_event_count: final(self).total_event_count,
                ..*old(self)
            }),
    {
        match firing_acks {
            Some(a) => {
                self.unacked_firing_count = count_flags(a, false);
            },
            None => {},
        }
        match event_count {
            Some(n) => {
                self.total_event_count = n;
            },
            None => {},
        }
    }

    /// Counts the enabled alert rules (their `enabled` flags).
    pub fn record_rules(&mut self, enabled: &[bool])
        ensures
            final(self).active_alert_count == count_true(enabled@),
            *final(self) == (WatchdogState { active_alert_count: final(self).active_alert_count, ..*old(self) }),
    {
        self.active_alert_count = count_flags(enabled, true);
    }

    /// Takes in the threat figures and recomputes the composite score: the
    /// number of emitters first seen in the last day (when that query
    /// succeeded), the anomaly count, the anomalies with a baseline
    /// deviation, and the UID-mismatch events (when that query succeeded).
    pub fn record_threats(
        &mut self,
        new_emitters: Option<usize>,
        anomalies: usize,
        deviations: usize,
        uid_mismatches: Option<usize>,
    )
        ensures
            final(self).cs_new_emitter_count == match new_emitters {
                Some(n) => n,
                None => old(self).cs_new_emitter_count,
            },
            final(self).cs_anomaly_count == anomalies,
            final(self).cs_baseline_deviation_count == deviations,
            final(self).cs_uid_mismatch_count == match uid_mismatches {
                Some(n) => n,
                None => old(self).cs_uid_mismatch_count,
            },
            final(self).cs_threat_score == threat_score_spec(
                final(self).cs_new_emitter_count,
                anomalies,
                final(self).cs_uid_mismatch_count,
                deviations,
            ),
            *final(self) == (WatchdogState {
                cs_new_emitter_count: final(self).cs_new_emitter_count,
                cs_anomaly_count: anomalies,
                cs_baseline_deviation_count: deviations,
                cs_uid_mismatch_count: final(self).cs_uid_mismatch_count,
                cs_threat_score: final(self).cs_threat_score,
                ..*old(self)
            }),
    {
        match new_emitters {
            Some(n) => {
                self.cs_new_emitter_count = n;
            },
            None => {},
        }
        self.cs_anomaly_count = anomalies;
        self.cs_baseline_deviation_count = deviations;
        match uid_mismatches {
            Some(n) => {
                self.cs_uid_mismatch_count = n;
            },
            None => {},
        }
        self.cs_threat_score = threat_score(
            self.cs_new_emitter_count,
            self.cs_anomaly_count,
            self.cs_uid_mismatch_count,
            self.cs_baseline_deviation_count,
        );
    }
}

} // verus!

verus! {

/// Rows per page of event query results.
pub const QUERY_PAGE: usize = 100;

/// Whether an alert firing is listed under the alerts filter
/// (0 all, 1 unacknowledged only, 2 acknowledged only, other values all).
pub open spec fn firing_shown_spec(filter: u8, acknowledged: bool) -> bool {
    if filter == 1 {
        !acknowledged
    } else if filter == 2 {
        acknowledged
    } else {
        true
    }
}

pub fn firing_shown(filter: u8, acknowledged: bool) -> (res: bool)
    ensures
        res == firing_shown_spec(filter, acknowledged),
{
    if filter == 1 {
        !acknowledged
    } else if filter == 2 {
        acknowledged
    } else {
        true
    }
}

/// Whether an anomaly of the given severity word is listed under the anomaly
/// filter (0 all, 1 warning or critical, 2 critical only, other values all).
pub open spec fn anomaly_shown_spec(min_sev: u8, severity: Seq<char>) -> bool {
    if min_sev == 1 {
        severity == "warning"@ || severity == "critical"@
    } else if min_sev == 2 {
        severity == "critical"@
    } else {
        true
    }
}

pub fn anomaly_shown(min_sev: u8, severity: &str) -> (res: bool)
    ensures
        res == anomaly_shown_spec(min_sev, severity@),
{
    if min_sev == 1 {
        crate::strbuf::str_eq(severity, "warning") || crate::strbuf::str_eq(severity, "critical")
    } else if min_sev == 2 {
        crate::strbuf::str_eq(severity, "critical")
    } else {
        true
    }
}

impl<R> WatchdogState<R> {
    /// Whether the live tail shows a record of this severity.
    pub fn live_tail_shows(&self, severity: u8) -> (res: bool)
        ensures
            res == (severity >= self.live_tail_min_severity),
    {
        severity >= self.live_tail_min_severity
    }

    /// Current page number (from 1) and number of pages (at least 1) of the
    /// event query results. The total is taken as a `usize`.
    pub fn page_numbers(&self) -> (res: (usize, usize))
        requires
            self.query_total as usize <= usize::MAX - 99,
        ensures
            res.0 == self.query_offset / QUERY_PAGE + 1,
            res.1 == if (self.query_total as usize + 99) / 100 > 1 {
                (self.query_total as usize + 99) / 100
            } else {
                1
            },
    {
        let page = self.query_offset / QUERY_PAGE + 1;
        let total_pages = (self.query_total as usize + 99) / 100;
        (page, if total_pages > 1 { total_pages } else { 1 })
    }

    /// Whether there is an earlier page.
    pub fn can_page_back(&self) -> (res: bool)
        ensures
            res == (self.query_offset > 0),
    {
        self.query_offset > 0
    }

    /// Whether there is a later page.
    pub fn can_page_forward(&self) -> (res: bool)
        requires
            self.query_offset <= usize::MAX - QUERY_PAGE,
        ensures
            res == (self.query_offset + QUERY_PAGE < self.query_total as usize),
    {
        self.query_offset + QUERY_PAGE < self.query_total as usize
    }

    /// Moves to the earlier page (never below the first).
    pub fn page_back(&mut self)
        ensures
            final(self).query_offset == page_back_offset(old(self).query_offset),
            *final(self) == (WatchdogState { query_offset: final(self).query_offset, ..*old(self) }),
    {
        self.query_offset = self.query_offset.saturating_sub(QUERY_PAGE);
    }

    /// Moves to the later page.
    pub fn page_forward(&mut self)
        requires
            old(self).query_offset <= usize::MAX - QUERY_PAGE,
        ensures
            final(self).query_offset == old(self).query_offset + QUERY_PAGE,
            *final(self) == (WatchdogState { query_offset: final(self).query_offset, ..*old(self) }),
    {
        self.query_offset = self.query_offset + QUERY_PAGE;
    }
}

/// The query offset after paging back from `offset`.
pub open spec fn page_back_offset(offset: usize) -> usize {
    if offset >= QUERY_PAGE {
        (offset - QUERY_PAGE) as usize
    } else {
        0
    }
}

/// Offsets stay on page boundaries: from an offset that is a multiple of
/// the page size, paging back moves one page down (staying at the first
/// page when already there) and paging forward one page up, and both land
/// on a multiple of the page size again.
pub proof fn law_paging_stays_on_pages(offset: usize)
    requires
        offset % QUERY_PAGE == 0,
    ensures
        ({
            let back = page_back_offset(offset);
            &&& back % QUERY_PAGE == 0
            &&& back == if offset == 0 { 0 } else { offset - QUERY_PAGE }
        }),
        offset <= usize::MAX - QUERY_PAGE ==> ({
            let fwd = (offset + QUERY_PAGE) as usize;
            &&& fwd % QUERY_PAGE == 0
            &&& fwd == offset + QUERY_PAGE
        }),
{
}

/// Paging forward and then back returns to the same page.
pub proof fn law_page_forward_back(offset: usize)
    requires
        offset <= usize::MAX - QUERY_PAGE,
    ensures
        ({
            let fwd = (offset + QUERY_PAGE) as usize;
            (if fwd >= QUERY_PAGE { fwd - QUERY_PAGE } else { 0 }) == offset
        }),
{
}

} // verus!

verus! {

/// The first-seen stamp (`YYYY-MM-DD HH:MM:SS`, UTC) from which an emitter
/// counts as new: one day before Unix time `now_secs`; empty when that
/// instant cannot be written.
pub open spec fn emitter_cutoff_spec(now_secs: i64) -> Seq<char> {
    if now_secs - 86400 < i64::MIN {
        Seq::empty()
    } else {
        utc_stamp_spec((now_secs - 86400) as i64)
    }
}

pub fn emitter_cutoff(now_secs: i64) -> (res: String)
    ensures
        res@ == emitter_cutoff_spec(now_secs),
{
    if now_secs < i64::MIN + 86400 {
        return String::new();
    }
    utc_stamp(now_secs - 86400)
}

/// Indices (ascending), among the first `n` stamps, of those at or after
/// `cutoff` as text.
pub open spec fn stamps_from(stamps: Seq<String>, cutoff: Seq<char>, n: nat) -> Seq<usize>
    decreases n,
{
    if n == 0 {
        Seq::empty()
    } else {
        let p = stamps_from(stamps, cutoff, (n - 1) as nat);
        if !text_lt(stamps[n - 1]@, cutoff) {
            p.push((n - 1) as usize)
        } else {
            p
        }
    }
}

/// The emitters first seen at or after `cutoff` (stamps compared as text),
/// by index.
pub fn new_emitters(first_seen: &Vec<String>, cutoff: &str) -> (res: Vec<usize>)
    ensures
        res@ == stamps_from(first_seen@, cutoff@, first_seen@.len() as nat),
{
    let c = chars_of(cutoff);
    let mut out: Vec<usize> = Vec::new();
    let mut i: usize = 0;
    while i < first_seen.len()
        invariant
            i <= first_seen@.len(),
            c@ == cutoff@,
            out@ == stamps_from(first_seen@, cutoff@, i as nat),
        decreases first_seen@.len() - i,
    {
        let s = chars_of(first_seen[i].as_str());
        if compare_texts(&s, &c) >= 0 {
            out.push(i);
        }
        i = i + 1;
    }
    out
}

} // verus!

verus! {

/// The text of the events-tab filter box that a facet field stands for
/// (`event_type`, `severity`, `band`, `source`); empty for any other field.
pub open spec fn facet_filter_spec<R>(ws: WatchdogState<R>, field: Seq<char>) -> Seq<char> {
    if field == "event_type"@ {
        ws.event_type_filter@
    } else if field == "severity"@ {
        ws.event_severity_filter@
    } else if field == "band"@ {
        ws.event_band_filter@
    } else if field == "source"@ {
        ws.event_source_filter@
    } else {
        Seq::empty()
    }
}

/// Whether a facet value is the active filter of its field.
pub open spec fn facet_active_spec<R>(ws: WatchdogState<R>, field: Seq<char>, value: Seq<char>) -> bool {
    facet_filter_spec(ws, field).len() > 0 && facet_filter_spec(ws, field) == value
}

/// The state after setting the filter box of facet field `field` to the
/// text `v` (no box for another field) and going back to the first page.
pub open spec fn filter_set<R>(old: WatchdogState<R>, new: WatchdogState<R>, field: Seq<char>, v: Seq<char>) -> bool {
    &&& new.event_type_filter@ == if field == "event_type"@ { v } else { old.event_type_filter@ }
    &&& new.event_severity_filter@ == if field == "severity"@ { v } else { old.event_severity_filter@ }
    &&& new.event_band_filter@ == if field == "band"@ { v } else { old.event_band_filter@ }
    &&& new.event_source_filter@ == if field == "source"@ { v } else { old.event_source_filter@ }
    &&& new == (WatchdogState {
        event_type_filter: new.event_type_filter,
        event_severity_filter: new.event_severity_filter,
        event_band_filter: new.event_band_filter,
        event_source_filter: new.event_source_filter,
        query_offset: 0,
        ..old
    })
}

impl<R> WatchdogState<R> {
    /// The filter box text of a facet field.
    pub fn facet_filter(&self, field: &str) -> (res: &str)
        ensures
            res@ == facet_filter_spec(*self, field@),
    {
        proof {
            reveal_strlit("");
        }
        if crate::strbuf::str_eq(field, "event_type") {
            self.event_type_filter.as_str()
        } else if crate::strbuf::str_eq(field, "severity") {
            self.event_severity_filter.as_str()
        } else if crate::strbuf::str_eq(field, "band") {
            self.event_band_filter.as_str()
        } else if crate::strbuf::str_eq(field, "source") {
            self.event_source_filter.as_str()
        } else {
            ""
        }
    }

    /// Whether the facet value `value` of `field` is its active filter
    /// (highlighted in the facet list).
    pub fn facet_active(&self, field: &str, value: &str) -> (res: bool)
        ensures
            res == facet_active_spec(*self, field@, value@),
    {
        let current = self.facet_filter(field);
        current.unicode_len() > 0 && crate::strbuf::str_eq(current, value)
    }

    /// Sets the filter box of facet field `field` to `value` and goes back to
    /// the first page (the caller then re-runs the events query).
    pub fn set_facet_filter(&mut self, field: &str, value: &str)
        ensures
            filter_set(*old(self), *final(self), field@, value@),
    {
        proof {
            reveal_strlit("event_type");
            reveal_strlit("severity");
            reveal_strlit("band");
            reveal_strlit("source");
            assert("event_type"@.len() == 10);
            assert("severity"@.len() == 8);
            assert("band"@.len() == 4);
            assert("source"@.len() == 6);
        }
        if crate::strbuf::str_eq(field, "event_type") {
            self.event_type_filter = String::from_str(value);
        } else if crate::strbuf::str_eq(field, "band") {
            self.event_band_filter = String::from_str(value);
        } else if crate::strbuf::str_eq(field, "source") {
            self.event_source_filter = String::from_str(value);
        } else if crate::strbuf::str_eq(field, "severity") {
            self.event_severity_filter = String::from_str(value);
        }
        self.query_offset = 0;
    }

    /// A click on a facet value: it becomes its field's filter, or clears
    /// the filter when it was the active one; back to the first page.
    pub fn click_facet(&mut self, field: &str, value: &str)
        ensures
            filter_set(
                *old(self),
                *final(self),
                field@,
                if facet_active_spec(*old(self), field@, value@) { Seq::empty() } else { value@ },
            ),
    {
        if self.facet_active(field, value) {
            let empty = String::new();
            self.set_facet_filter(field, empty.as_str());
        } else {
            self.set_facet_filter(field, value);
        }
    }

    /// Selects a time-range preset and goes back to the first page.
    pub fn select_time_range(&mut self, index: usize)
        ensures
            *final(self) == (WatchdogState { event_time_range: index, query_offset: 0, ..*old(self) }),
    {
        self.event_time_range = index;
        self.query_offset = 0;
    }

    /// Expands result row `idx`, or folds it when it is the expanded one.
    pub fn toggle_expanded(&mut self, idx: usize)
        ensures
            final(self).event_expanded == if old(self).event_expanded == Some(idx) { None } else { Some(idx) },
            *final(self) == (WatchdogState { event_expanded: final(self).event_expanded, ..*old(self) }),
    {
        self.event_expanded = if self.event_expanded == Some(idx) { None } else { Some(idx) };
    }
}

/// Clicking a facet value that is not its field's active filter makes it
/// the active filter, and clicking it again clears that filter.
pub proof fn law_facet_click_twice<R>(a: WatchdogState<R>, b: WatchdogState<R>, c: WatchdogState<R>, field: Seq<char>, value: Seq<char>)
    requires
        value.len() > 0,
        !facet_active_spec(a, field, value),
        filter_set(a, b, field, if facet_active_spec(a, field, value) { Seq::empty() } else { value }),
        filter_set(b, c, field, if facet_active_spec(b, field, value) { Seq::empty() } else { value }),
    ensures
        facet_filter_spec(c, field) == Seq::<char>::empty(),
        field == "event_type"@ || field == "severity"@ || field == "band"@ || field == "source"@
            ==> facet_active_spec(b, field, value),
{
}

} // verus!

verus! {

/// The live-tail buffer count, marked `(FULL)` once it holds `LIVE_TAIL_MAX`.
pub open spec fn buffer_text_spec(n: nat) -> Seq<char> {
    if n >= LIVE_TAIL_MAX {
        decimal(n) + " (FULL)"@
    } else {
        decimal(n)
    }
}

/// Positions in the live tail (newest first) of the rows shown, oldest
/// first: the first `n` entries taken from the end, severity at least `min`.
pub open spec fn tail_rows_spec(sev: Seq<u8>, min: u8, n: nat) -> Seq<usize>
    decreases n,
{
    if n == 0 {
        Seq::empty()
    } else {
        let p = tail_rows_spec(sev, min, (n - 1) as nat);
        let i = sev.len() - n;
        if sev[i] >= min {
            p.push(i as usize)
        } else {
            p
        }
    }
}

impl<R> WatchdogState<R> {
    /// The buffer count shown in the live-tail toolbar.
    pub fn buffer_text(&self) -> (res: String)
        ensures
            res@ == buffer_text_spec(self.live_tail@.len()),
    {
        let n = self.live_tail.len();
        let mut s = String::new();
        push_decimal(&mut s, n as u64);
        if n >= LIVE_TAIL_MAX {
            s.append(" (FULL)");
        }
        s
    }

    /// The live-tail rows to draw, oldest at the top: positions into the
    /// tail of the entries whose severity (`severities`, one per entry) is
    /// at least the minimum.
    pub fn visible_rows(&self, severities: &Vec<u8>) -> (res: Vec<usize>)
        requires
            severities@.len() == self.live_tail@.len(),
        ensures
            res@ == tail_rows_spec(severities@, self.live_tail_min_severity, severities@.len() as nat),
    {
        let mut out: Vec<usize> = Vec::new();
        let mut k: usize = 0;
        let n = severities.len();
        while k < n
            invariant
                k <= n,
                n == severities@.len(),
                out@ == tail_rows_spec(severities@, self.live_tail_min_severity, k as nat),
            decreases n - k,
        {
            let i = n - 1 - k;
            if severities[i] >= self.live_tail_min_severity {
                out.push(i);
            }
            k = k + 1;
        }
        out
    }
}

/// What the alerts list says when the filter leaves no firing.
pub open spec fn no_firings_text(filter: u8) -> Seq<char> {
    if filter == 1 {
        "No unacknowledged firings"@
    } else if filter == 2 {
        "No acknowledged firings"@
    } else {
        "No firings"@
    }
}

pub fn no_firings_message(filter: u8) -> (res: &'static str)
    ensures
        res@ == no_firings_text(filter),
{
    if filter == 1 {
        "No unacknowledged firings"
    } else if filter == 2 {
        "No acknowledged firings"
    } else {
        "No firings"
    }
}

/// Status column of a firing.
pub fn firing_status(acknowledged: bool) -> (res: &'static str)
    ensures
        res@ == if acknowledged { "ACK"@ } else { "NEW"@ },
{
    if acknowledged {
        "ACK"
    } else {
        "NEW"
    }
}

/// The priority of the first rule (given as (id, priority)) with id `rule_id`.
pub open spec fn rule_priority_spec(rules: Seq<(i64, AlertPriority)>, rule_id: i64) -> Option<AlertPriority>
    decreases rules.len(),
{
    if rules.len() == 0 {
        None
    } else if rules[0].0 == rule_id {
        Some(rules[0].1)
    } else {
        rule_priority_spec(rules.drop_first(), rule_id)
    }
}

/// The priority of the rule that fired, looked up by its id.
pub fn rule_priority(rules: &Vec<(i64, AlertPriority)>, rule_id: i64) -> (res: Option<AlertPriority>)
    ensures
        res == rule_priority_spec(rules@, rule_id),
{
    let mut i: usize = 0;
    assert(rules@.skip(0) =~= rules@);
    while i < rules.len()
        invariant
            i <= rules@.len(),
            rule_priority_spec(rules@, rule_id) == rule_priority_spec(rules@.skip(i as int), rule_id),
        decreases rules@.len() - i,
    {
        assert(rules@.skip(i as int).drop_first() =~= rules@.skip(i + 1));
        if rules[i].0 == rule_id {
            return Some(rules[i].1);
        }
        i = i + 1;
    }
    None
}

} // verus!

verus! {

/// The threat banner for a composite score: above 20 high, from 5 elevated,
/// else low.
pub open spec fn threat_level_spec(score: u32) -> (Seq<char>, Swatch) {
    if score > 20 {
        ("HIGH THREAT"@, Swatch::Theme(ThemeColor::RedWatchdog))
    } else if score >= 5 {
        ("ELEVATED"@, Swatch::Theme(ThemeColor::AmberWarning))
    } else {
        ("LOW THREAT"@, Swatch::Theme(ThemeColor::GreenCollect))
    }
}

pub fn threat_level(score: u32) -> (res: (&'static str, Swatch))
    ensures
        (res.0@, res.1) == threat_level_spec(score),
{
    if score > 20 {
        ("HIGH THREAT", Swatch::Theme(ThemeColor::RedWatchdog))
    } else if score >= 5 {
        ("ELEVATED", Swatch::Theme(ThemeColor::AmberWarning))
    } else {
        ("LOW THREAT", Swatch::Theme(ThemeColor::GreenCollect))
    }
}

/// A threat's summary as listed: over 50 characters, the first 50 and `...`.
pub open spec fn short_body_spec(body: Seq<char>) -> Seq<char> {
    if body.len() > 50 {
        body.take(50) + "..."@
    } else {
        body
    }
}

pub fn short_body(body: &str) -> (res: String)
    ensures
        res@ == short_body_spec(body@),
{
    if body.unicode_len() > 50 {
        let mut s = String::from_str(body.substring_char(0, 50));
        s.append("...");
        s
    } else {
        String::from_str(body)
    }
}

impl<R> WatchdogState<R> {
    /// Whether a baseline of profile `profile_name` is shown under the
    /// selected profile (`"all"` shows every profile).
    pub fn baseline_shown(&self, profile_name: &str) -> (res: bool)
        ensures
            res == (self.baseline_active_profile@ == "all"@ || profile_name@ == self.baseline_active_profile@),
    {
        str_eq(self.baseline_active_profile.as_str(), "all") || str_eq(profile_name, self.baseline_active_profile.as_str())
    }
}


/// The event-type box: text holding `%` or `*` becomes a `LIKE` filter on
/// the event type whose pattern is the text with each `*` turned into `%`;
/// other non-empty text becomes an equality on the event type; either way
/// it is the first filter of the query.
pub proof fn law_event_type_box<F>(t: Seq<char>, sev: Seq<char>, band: Seq<char>, src: Seq<char>)
    ensures
        (exists|i: int| 0 <= i < t.len() && (t[i] == '%' || t[i] == '*')) ==> {
            &&& event_filters_spec::<F>(t, sev, band, src).len() >= 1
            &&& event_filters_spec::<F>(t, sev, band, src)[0] matches FilterView::Like(fd, p)
            &&& fd == Field::EventType
            &&& p.len() == t.len()
            &&& forall|i: int| 0 <= i < t.len() ==> #[trigger] p[i] == if t[i] == '*' { '%' } else { t[i] }
        },
        t.len() > 0 && (forall|i: int| 0 <= i < t.len() ==> t[i] != '%' && t[i] != '*') ==> {
            &&& event_filters_spec::<F>(t, sev, band, src).len() >= 1
            &&& event_filters_spec::<F>(t, sev, band, src)[0] == FilterView::<F>::Eq(Field::EventType, ValueView::Text(t))
        },
{
    if exists|i: int| 0 <= i < t.len() && (t[i] == '%' || t[i] == '*') {
        let i = choose|i: int| 0 <= i < t.len() && (t[i] == '%' || t[i] == '*');
        if t[i] == '%' {
            assert(t.contains('%'));
        } else {
            assert(t.contains('*'));
        }
    }
    if t.len() > 0 && (forall|i: int| 0 <= i < t.len() ==> t[i] != '%' && t[i] != '*') {
        assert(!t.contains('%'));
        assert(!t.contains('*'));
    }
}

} // verus!
