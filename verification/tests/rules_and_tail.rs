use std::collections::HashMap;

use rf_console::filters::{
    decompose_filter, filter_val_str, recompose_filter, value_suggestions, EditText, Field, Filter, FilterValue,
};
use rf_console::dispatch::{dispatch_matches, DispatchFilter, ProtocolEvent};
use rf_console::labels::time_range_ns;
use rf_console::operations::{new_operation_request, OperationForm, OperatorForm};
use rf_console::recording::{plan_recording_at, recording_stamp};
use rf_console::rules::{
    alert_cond_type, alert_cond_type_index, alert_condition_text, alert_rule_summary, custom_condition_text, alert_op_phrase, cardinality_phrase, cmp_op_display, custom_cond_type,
    custom_cond_type_index, custom_op_phrase, default_alert_condition, default_custom_condition, AlertCondition, CmpOp,
    CustomEventCondition,
};
use rf_console::talkgroups::{talkgroup_caches, Talkgroup};
use rf_console::text::format_count;
use rf_console::watchdog::{sev_filter_choice, WatchdogState, QUERY_PAGE};

#[test]
fn watchdog_defaults_include_rules_and_baseline_profile() {
    let ws: WatchdogState<u8> = WatchdogState::default();
    assert_eq!(ws.event_time_range, 2);
    assert_eq!(time_range_ns(ws.event_time_range), 86_400_000_000_000);
    assert!(ws.force_refresh);
    assert!(ws.live_tail_tactical);
    assert!(!ws.live_tail_paused);
    assert!(ws.live_tail.is_empty());
    assert_eq!(ws.live_tail_min_severity, 0);
    assert_eq!(ws.query_offset, 0);
    assert!(ws.event_expanded.is_none());
    assert!(!ws.events_initialized);
    assert_eq!(ws.baseline_active_profile, "all");
    assert!(ws.alert_rule_expanded.is_none());
    assert!(ws.custom_rule_expanded.is_none());
    assert!(ws.rule_delete_confirm.is_none());
}

#[test]
fn live_tail_severity_levels() {
    let mut ws: WatchdogState<u8> = WatchdogState::new();
    let expected = [("ALL", 0u8), ("INFO+", 9), ("WARN+", 13), ("ERROR+", 17)];
    for (i, (label, level)) in expected.iter().enumerate() {
        assert_eq!(sev_filter_choice(i), (*label, *level));
        ws.set_min_severity(i);
        assert_eq!(ws.live_tail_min_severity, *level);
    }
    assert!(ws.live_tail_shows(17));
    assert!(!ws.live_tail_shows(13));
}

#[test]
fn live_tail_clear_empties_the_tail_only() {
    let mut ws: WatchdogState<u8> = WatchdogState::new();
    assert!(ws.push_live_event(1, "protocol.p25.voice"));
    assert!(ws.push_live_event(2, "sigex.emitter.new"));
    assert_eq!(ws.live_tail.len(), 2);
    ws.clear_live_tail();
    assert!(ws.live_tail.is_empty());
    assert_eq!(ws.live_tail_rate_count, 2);
}

#[test]
fn dropped_event_leaves_counter_at_its_limit() {
    let mut ws: WatchdogState<u8> = WatchdogState::new();
    ws.live_tail_rate_count = u32::MAX;
    ws.live_tail_paused = true;
    assert!(!ws.push_live_event(1, "protocol.p25.voice"));
    assert_eq!(ws.live_tail_rate_count, u32::MAX);
    assert!(ws.live_tail.is_empty());
}

#[test]
fn baseline_profile_filter() {
    let mut ws: WatchdogState<u8> = WatchdogState::new();
    assert!(ws.baseline_shown("night"));
    assert!(ws.baseline_shown("day"));
    ws.baseline_active_profile = String::from("night");
    assert!(ws.baseline_shown("night"));
    assert!(!ws.baseline_shown("day"));
    assert!(!ws.baseline_shown("all"));
}

#[test]
fn rule_delete_needs_confirmation() {
    let mut ws: WatchdogState<u8> = WatchdogState::new();
    ws.alert_rule_expanded = Some(7);
    ws.custom_rule_expanded = Some(3);
    ws.force_refresh = false;
    assert!(!ws.is_deleting(7, true));
    ws.ask_delete(7, true);
    assert!(ws.is_deleting(7, true));
    assert!(!ws.is_deleting(7, false));
    ws.cancel_delete();
    assert!(ws.rule_delete_confirm.is_none());
    assert_eq!(ws.alert_rule_expanded, Some(7));
    assert!(!ws.force_refresh);
    ws.ask_delete(7, true);
    assert_eq!(ws.confirm_delete(), Some((7, true)));
    assert!(ws.rule_delete_confirm.is_none());
    assert!(ws.alert_rule_expanded.is_none());
    assert_eq!(ws.custom_rule_expanded, Some(3));
    assert!(ws.force_refresh);
    assert_eq!(ws.confirm_delete(), None);
}

#[test]
fn rule_editor_opens_and_closes() {
    let mut ws: WatchdogState<u8> = WatchdogState::new();
    assert!(ws.click_rule(4, false));
    assert!(ws.is_rule_expanded(4, false));
    assert!(!ws.is_rule_expanded(4, true));
    assert!(ws.click_rule(5, false));
    assert_eq!(ws.custom_rule_expanded, Some(5));
    assert!(!ws.click_rule(5, false));
    assert!(ws.custom_rule_expanded.is_none());
    ws.force_refresh = false;
    ws.rule_created(11, true);
    assert_eq!(ws.alert_rule_expanded, Some(11));
    assert!(ws.force_refresh);
    ws.force_refresh = false;
    ws.rule_saved(true);
    assert!(ws.alert_rule_expanded.is_none());
    assert!(ws.force_refresh);
}

#[test]
fn condition_type_indices_and_defaults() {
    for i in 0..4 {
        let c = default_alert_condition(i, 5.0f64, 200.0f64);
        assert_eq!(alert_cond_type_index(&c), i);
    }
    match default_alert_condition(0, 5.0f64, 200.0f64) {
        AlertCondition::Threshold { op, value, window_sec } => {
            assert_eq!(op, CmpOp::Gte);
            assert_eq!(value, 5.0);
            assert_eq!(window_sec, 60);
        },
        _ => panic!("expected a threshold"),
    }
    match default_alert_condition(2, 5.0f64, 200.0f64) {
        AlertCondition::RateChange { percent, window_sec, baseline_sec } => {
            assert_eq!(percent, 200.0);
            assert_eq!((window_sec, baseline_sec), (60, 3600));
        },
        _ => panic!("expected a rate change"),
    }
    assert!(matches!(default_alert_condition(9, 5.0f64, 200.0f64), AlertCondition::FirstOccurrence));
    for i in 0..6 {
        let c = default_custom_condition(i, 5.0f64, 200.0f64);
        assert_eq!(custom_cond_type_index(&c), i);
    }
    match default_custom_condition(4, 5.0f64, 200.0f64) {
        CustomEventCondition::Cardinality { field, op, value, window_sec } => {
            assert_eq!(field, Field::Band);
            assert_eq!(op, CmpOp::Gte);
            assert_eq!((value, window_sec), (3, 600));
        },
        _ => panic!("expected a cardinality"),
    }
    match default_custom_condition(3, 5.0f64, 200.0f64) {
        CustomEventCondition::NewValue { field, lookback_sec } => {
            assert_eq!(field, Field::Talkgroup);
            assert_eq!(lookback_sec, 86400);
        },
        _ => panic!("expected a new value"),
    }
    let corr: CustomEventCondition<f64> = CustomEventCondition::Correlation { window_sec: 30 };
    assert_eq!(custom_cond_type_index(&corr), 5);
}

#[test]
fn condition_texts() {
    assert_eq!(alert_cond_type(1), ("Absence", "Alert when events stop arriving (dead man)"));
    assert_eq!(custom_cond_type(3), Some(("New Value", "Fire when an unseen field value appears")));
    assert_eq!(custom_cond_type(6), None);
    assert_eq!(cmp_op_display(CmpOp::Ne), "not equals (!=)");
    assert_eq!(cmp_op_display(CmpOp::Gte), "at least (>=)");
    assert_eq!(alert_op_phrase(CmpOp::Lt), "fewer than");
    assert_eq!(alert_op_phrase(CmpOp::Ne), "not exactly");
    assert_eq!(custom_op_phrase(CmpOp::Gt), "more than");
    assert_eq!(custom_op_phrase(CmpOp::Eq), "threshold of");
    assert_eq!(cardinality_phrase(CmpOp::Gte), "at least");
    assert_eq!(cardinality_phrase(CmpOp::Gt), "reaching");
}

#[test]
fn talkgroup_caches_from_rows() {
    let tg = |tgid: i32, name: Option<&str>, dept: Option<&str>| Talkgroup {
        tgid,
        name: name.map(String::from),
        department: dept.map(String::from),
        tag: None,
        scan_enabled: false,
    };
    let rows = vec![
        tg(100, Some("Fire Dispatch"), Some("Fire")),
        tg(200, None, Some("Police")),
        tg(300, Some(""), Some("EMS")),
        tg(400, None, None),
        tg(100, Some("Fire Main"), Some("")),
        tg(-1, Some("Odd"), None),
    ];
    let (names, depts) = talkgroup_caches(&rows);
    let mut want_names: HashMap<u32, String> = HashMap::new();
    want_names.insert(100, "Fire Main".into());
    want_names.insert(200, "Police".into());
    want_names.insert(u32::MAX, "Odd".into());
    let mut want_depts: HashMap<u32, String> = HashMap::new();
    want_depts.insert(100, "Fire".into());
    want_depts.insert(200, "Police".into());
    want_depts.insert(300, "EMS".into());
    assert_eq!(names, want_names);
    assert_eq!(depts, want_depts);
}

#[test]
fn format_count_groups_in_threes() {
    for n in [0u64, 7, 999, 1000, 1234567, 1000000, u64::MAX] {
        let text = format_count(n);
        let groups: Vec<&str> = text.split(',').collect();
        assert!((1..=3).contains(&groups[0].len()));
        for g in &groups[1..] {
            assert_eq!(g.len(), 3);
        }
        assert_eq!(text.replace(',', ""), n.to_string());
    }
    assert_eq!(format_count(u64::MAX), "18,446,744,073,709,551,615");
}

#[test]
fn value_suggestions_known_first_then_new_facets() {
    let facets = vec![
        ("band".to_string(), vec![("VHF".to_string(), 4u64), ("220".to_string(), 2), ("22".to_string(), 1)]),
        ("band".to_string(), vec![("IGNORED".to_string(), 9u64)]),
    ];
    let r = value_suggestions(8, &facets);
    let known = ["VHF", "UHF", "HF", "700", "800", "900", "MARINE", "AIR", "FRS", "GMRS", "MURS"];
    assert_eq!(r.len(), known.len() + 1);
    for (i, k) in known.iter().enumerate() {
        assert_eq!(r[i], *k);
    }
    assert_eq!(r[known.len()], "220");
    assert!(value_suggestions(3, &facets).is_empty());
}

#[test]
fn decompose_of_recompose_gives_the_inputs_back() {
    let cases: [(u8, &str); 6] = [(0, "42"), (1, "abc"), (3, "true"), (6, "12"), (7, "x%"), (5, "-3")];
    for (op, text) in cases {
        let f: Filter<f64> = recompose_filter(op, Field::Talkgroup, text, None);
        let (op2, field2, shown) = decompose_filter(&f);
        assert_eq!(op2, op);
        assert_eq!(field2, Field::Talkgroup);
        match shown {
            EditText::Text(t) => assert_eq!(t, text),
            EditText::Float(_) => panic!("no float operand here"),
        }
    }
    match filter_val_str(&FilterValue::<f64>::Int(-3)) {
        EditText::Text(t) => assert_eq!(t, "-3"),
        EditText::Float(_) => panic!("an integer is shown as text"),
    }
}

#[test]
fn paging_stays_on_page_boundaries() {
    let mut ws: WatchdogState<u8> = WatchdogState::new();
    ws.page_back();
    assert_eq!(ws.query_offset, 0);
    ws.page_forward();
    ws.page_forward();
    assert_eq!(ws.query_offset, 2 * QUERY_PAGE);
    ws.page_back();
    assert_eq!(ws.query_offset, QUERY_PAGE);
    assert_eq!(ws.query_offset % QUERY_PAGE, 0);
}

#[test]
fn recording_stamp_is_compact_utc() {
    assert_eq!(recording_stamp(0), "19700101_000000");
    assert_eq!(recording_stamp(1_700_000_000), "20231114_221320");
    let plan = plan_recording_at(1_700_000_000, "iq", "", 2_400_000);
    assert_eq!(plan.file_name, "iq_20231114_221320.raw");
    assert_eq!(plan.sample_rate, 2_400_000);
    assert!(plan.label.is_none());
}

#[test]
fn alert_rule_summary_in_words() {
    let c: AlertCondition<f64> = AlertCondition::Threshold { op: CmpOp::Gte, value: 5.0, window_sec: 60 };
    assert_eq!(alert_condition_text(&c, "5"), "at least 5 matching events within 1m");
    let parts = vec![(Field::Encrypted, "true".to_string()), (Field::Band, "VHF".to_string())];
    assert_eq!(
        alert_rule_summary(&c, "5", &parts),
        "Alert when at least 5 matching events within 1m — watching Encrypted is \"true\" AND Band is \"VHF\""
    );
    let r: AlertCondition<f64> = AlertCondition::RateChange { percent: 300.0, window_sec: 60, baseline_sec: 3600 };
    assert_eq!(
        alert_rule_summary(&r, "300", &Vec::new()),
        "Alert when event rate changes by more than 300% (comparing 1m window to 1h baseline) — watching any event"
    );
    let a: AlertCondition<f64> = AlertCondition::Absence { window_sec: 30 };
    assert_eq!(alert_condition_text(&a, ""), "no matching events for 30s");
    let f: AlertCondition<f64> = AlertCondition::FirstOccurrence;
    assert_eq!(alert_condition_text(&f, ""), "a matching event is seen for the first time");
}

#[test]
fn custom_condition_in_words() {
    let c: CustomEventCondition<f64> = CustomEventCondition::Cardinality { field: Field::Band, op: CmpOp::Gte, value: 3, window_sec: 600 };
    assert_eq!(custom_condition_text(&c, ""), "at least 3 distinct Band values in 10m");
    let n: CustomEventCondition<f64> = CustomEventCondition::NewValue { field: Field::Talkgroup, lookback_sec: 86400 };
    assert_eq!(custom_condition_text(&n, ""), "a new Talkgroup value (not seen in 1d)");
    let t: CustomEventCondition<f64> = CustomEventCondition::Threshold { op: CmpOp::Lt, value: 3.0, window_sec: 120 };
    assert_eq!(custom_condition_text(&t, "3"), "threshold of 3 matches in 2m");
    let r: CustomEventCondition<f64> = CustomEventCondition::RateChange { percent: 200.0, window_sec: 60, baseline_sec: 3600 };
    assert_eq!(custom_condition_text(&r, "200"), "rate changes by >200%");
    assert_eq!(custom_condition_text(&CustomEventCondition::<f64>::Every, ""), "every matching event");
    assert_eq!(custom_condition_text(&CustomEventCondition::<f64>::Correlation { window_sec: 5 }, ""), "correlated events detected");
}

#[test]
fn trimming_removes_unicode_white_space() {
    let r = new_operation_request("\u{3000} Ops\u{a0}\t", " d\u{2029}", "p", None);
    assert_eq!(r, Some(("Ops".to_string(), "d".to_string(), "p".to_string(), None)));
    assert_eq!(new_operation_request("\u{2028}\u{85}\u{200a}", "x", "p", Some(3)), None);
    let kept = new_operation_request("\u{200b}A", "", "p", None);
    assert_eq!(kept, Some(("\u{200b}A".to_string(), String::new(), "p".to_string(), None)));
}

#[test]
fn plan_forms_default_and_reset() {
    let mut f = OperationForm::new();
    assert!(!f.visible);
    assert_eq!(f.profile, "test");
    assert_eq!(f.request(Some(2)), None);
    f.toggle();
    assert!(f.visible);
    f.name = "  Night Survey ".into();
    f.desc = "north ridge ".into();
    f.profile = "live".into();
    assert_eq!(
        f.request(Some(2)),
        Some(("Night Survey".to_string(), "north ridge".to_string(), "live".to_string(), Some(2)))
    );
    f.created();
    assert!(!f.visible);
    assert!(f.name.is_empty() && f.desc.is_empty());
    assert_eq!(f.profile, "test");

    let mut o = OperatorForm::new();
    o.toggle();
    o.callsign = " K7ABC ".into();
    o.display_name = "Sam".into();
    assert_eq!(o.request(), Some(("K7ABC".to_string(), "Sam".to_string(), String::new())));
    o.created();
    assert!(!o.visible && o.callsign.is_empty() && o.display_name.is_empty() && o.notes.is_empty());
}

#[test]
fn dispatch_shows_only_p25_by_default() {
    let f = DispatchFilter::new();
    assert_eq!(f.type_filters, vec!["p25".to_string()]);
    let names: HashMap<u32, String> = HashMap::new();
    let depts: HashMap<u32, String> = HashMap::new();
    let evt = |t: &str| ProtocolEvent {
        event_type: t.to_string(),
        talkgroup: Some(5),
        source_unit: None,
        encrypted: None,
        opcode: None,
        rds_ps: None,
        rds_pi: None,
    };
    assert!(dispatch_matches(&evt("p25"), &f, &names, &depts));
    assert!(!dispatch_matches(&evt("tsbk"), &f, &names, &depts));
    assert!(!dispatch_matches(&evt("rds"), &f, &names, &depts));
}
