use rf_console::operations::{
    new_operation_request, new_operator_request, op_actions, op_status_label, status_after, unassigned_operators, ActiveConfig, OpAction,
};
use rf_console::labels::time_range_label;
use rf_console::palette::{AlertPriority, Swatch, ThemeColor};
use rf_console::watchdog::{
    anomaly_shown, count_flags, firing_shown, firing_status, no_firings_message, rule_priority, short_body, threat_level,
    threat_score, WatchdogState,
    LIVE_TAIL_MAX, QUERY_PAGE,
};
use rf_console::waterfall::WaterfallState;

#[test]
fn waterfall_keeps_newest_rows_first() {
    let mut wf: WaterfallState<u8, u32> = WaterfallState::new(3);
    assert_eq!(wf.len(), 0);
    assert_eq!(wf.width(), 0);
    assert!(wf.is_dirty());
    for k in 1..=5u8 {
        wf.push_row(vec![k, k]);
    }
    assert_eq!(wf.len(), 3);
    assert_eq!(wf.width(), 2);
    assert_eq!(wf.row(0), &vec![5, 5]);
    assert_eq!(wf.row(1), &vec![4, 4]);
    assert_eq!(wf.row(2), &vec![3, 3]);
}

#[test]
fn waterfall_ignores_empty_rows_and_resets_on_width_change() {
    let mut wf: WaterfallState<u8, u32> = WaterfallState::new(4);
    wf.push_row(vec![1, 2, 3]);
    wf.set_texture(7);
    wf.mark_drawn();
    assert!(!wf.is_dirty());

    wf.push_row(vec![]);
    assert_eq!(wf.len(), 1);
    assert!(!wf.is_dirty());
    assert_eq!(wf.texture(), &Some(7));

    wf.push_row(vec![4, 5, 6]);
    assert_eq!(wf.len(), 2);
    assert!(wf.is_dirty());
    assert_eq!(wf.texture(), &Some(7));

    wf.push_row(vec![9, 9]);
    assert_eq!(wf.len(), 1);
    assert_eq!(wf.width(), 2);
    assert_eq!(wf.texture(), &None);
    assert_eq!(wf.row(0), &vec![9, 9]);
}

#[test]
fn waterfall_with_no_room_keeps_nothing() {
    let mut wf: WaterfallState<u8, u32> = WaterfallState::new(0);
    wf.push_row(vec![1]);
    assert_eq!(wf.len(), 0);
    assert_eq!(wf.width(), 1);
}

#[test]
fn watchdog_starts_on_the_day_range_with_a_refresh_due() {
    let ws: WatchdogState<u32> = WatchdogState::new();
    assert!(ws.live_tail.is_empty());
    assert!(ws.live_tail_tactical);
    assert!(!ws.live_tail_paused);
    assert!(ws.force_refresh);
    assert_eq!(ws.event_time_range, 2);
    assert_eq!(ws.query_offset, 0);
    assert_eq!(ws.cs_threat_score, 0);
}

#[test]
fn live_tail_takes_tactical_events_newest_first() {
    let mut ws: WatchdogState<u32> = WatchdogState::new();
    assert!(ws.push_live_event(1, "protocol.p25.voice"));
    assert!(!ws.push_live_event(2, "protocol.p25.grant"));
    assert!(ws.push_live_event(3, "custom.jammer"));
    assert_eq!(ws.live_tail.iter().copied().collect::<Vec<u32>>(), vec![3, 1]);
    assert_eq!(ws.rate_count(), 2);

    ws.live_tail_tactical = false;
    assert!(ws.push_live_event(4, "protocol.p25.grant"));
    assert_eq!(ws.live_tail.front(), Some(&4));

    ws.live_tail_paused = true;
    assert!(!ws.push_live_event(5, "protocol.p25.voice"));
    assert_eq!(ws.live_tail.len(), 3);
    assert_eq!(ws.take_rate_count(), 3);
    assert_eq!(ws.rate_count(), 0);
}

#[test]
fn live_tail_is_capped() {
    let mut ws: WatchdogState<usize> = WatchdogState::new();
    ws.live_tail_tactical = false;
    for k in 0..(LIVE_TAIL_MAX + 50) {
        assert!(ws.push_live_event(k, "anything"));
    }
    assert_eq!(ws.live_tail.len(), LIVE_TAIL_MAX);
    assert_eq!(ws.live_tail.front(), Some(&(LIVE_TAIL_MAX + 49)));
    assert_eq!(ws.live_tail.back(), Some(&50));
}

#[test]
fn live_tail_severity_threshold() {
    let mut ws: WatchdogState<u32> = WatchdogState::new();
    ws.live_tail_min_severity = 13;
    assert!(!ws.live_tail_shows(12));
    assert!(ws.live_tail_shows(13));
    assert!(ws.live_tail_shows(21));
}

#[test]
fn poll_runs_when_forced_or_due() {
    let mut ws: WatchdogState<u32> = WatchdogState::new();
    ws.events_initialized = true;
    assert!(ws.begin_poll(false));
    assert!(!ws.force_refresh);
    assert!(!ws.events_initialized);
    ws.events_initialized = true;
    assert!(!ws.begin_poll(false));
    assert!(ws.begin_poll(true));
    assert!(ws.events_initialized);
}

#[test]
fn event_query_results_are_taken_in() {
    let mut ws: WatchdogState<u32> = WatchdogState::new();
    ws.event_expanded = Some(3);
    ws.finish_event_query(Some(250), Some(vec![7, 8]));
    assert_eq!(ws.query_total, 250);
    assert_eq!(ws.query_results, vec![7, 8]);
    assert_eq!(ws.event_expanded, None);
    assert!(ws.events_initialized);
    ws.finish_event_query(None, None);
    assert_eq!(ws.query_total, 250);
    assert_eq!(ws.query_results, vec![7, 8]);
}

#[test]
fn event_window_ends_now() {
    let mut ws: WatchdogState<u32> = WatchdogState::new();
    let now = 100_000_000_000_000u64;
    assert_eq!(ws.event_time_window(now), (now - 86_400_000_000_000, now));
    ws.event_time_range = 0;
    assert_eq!(ws.event_time_window(now), (now - 3_600_000_000_000, now));
    ws.event_time_range = 3;
    assert_eq!(ws.event_time_window(5), (0, 5));
}

#[test]
fn paging_through_results() {
    let mut ws: WatchdogState<u32> = WatchdogState::new();
    ws.query_total = 250;
    assert_eq!(ws.page_numbers(), (1, 3));
    assert!(!ws.can_page_back());
    assert!(ws.can_page_forward());
    ws.page_forward();
    ws.page_forward();
    assert_eq!(ws.query_offset, 2 * QUERY_PAGE);
    assert_eq!(ws.page_numbers(), (3, 3));
    assert!(!ws.can_page_forward());
    ws.page_back();
    assert_eq!(ws.query_offset, QUERY_PAGE);
    ws.query_offset = 30;
    ws.page_back();
    assert_eq!(ws.query_offset, 0);
    ws.query_total = 0;
    assert_eq!(ws.page_numbers(), (1, 1));
}

#[test]
fn paging_forward_then_back_returns() {
    let mut ws: WatchdogState<u32> = WatchdogState::new();
    ws.query_total = 1000;
    for start in [0usize, 100, 400] {
        ws.query_offset = start;
        ws.page_forward();
        ws.page_back();
        assert_eq!(ws.query_offset, start);
    }
}

#[test]
fn dashboard_counts() {
    let mut ws: WatchdogState<u32> = WatchdogState::new();
    let acks = [true, false, false, true, false];
    ws.record_dashboard(Some(&acks[..]), Some(1234));
    assert_eq!(ws.unacked_firing_count, 3);
    assert_eq!(ws.total_event_count, 1234);
    ws.record_dashboard(None, None);
    assert_eq!(ws.unacked_firing_count, 3);
    assert_eq!(ws.total_event_count, 1234);
    ws.record_rules(&[true, true, false]);
    assert_eq!(ws.active_alert_count, 2);
    assert_eq!(count_flags(&[], true), 0);
}

#[test]
fn threat_score_weights_and_saturates() {
    assert_eq!(threat_score(1, 1, 1, 1), 3 + 2 + 5 + 1);
    assert_eq!(threat_score(2, 0, 3, 4), 6 + 15 + 4);
    assert_eq!(threat_score(2_000_000_000, 0, 0, 0), u32::MAX);
    assert_eq!(threat_score(0, 0, 0, u32::MAX as usize), u32::MAX);
    let mut ws: WatchdogState<u32> = WatchdogState::new();
    ws.record_threats(Some(2), 3, 1, None);
    assert_eq!(ws.cs_new_emitter_count, 2);
    assert_eq!(ws.cs_uid_mismatch_count, 0);
    assert_eq!(ws.cs_threat_score, 6 + 6 + 1);
    ws.record_threats(None, 0, 0, Some(1));
    assert_eq!(ws.cs_new_emitter_count, 2);
    assert_eq!(ws.cs_threat_score, 6 + 5);
}

#[test]
fn alert_and_anomaly_list_filters() {
    assert!(firing_shown(0, true) && firing_shown(0, false));
    assert!(firing_shown(1, false) && !firing_shown(1, true));
    assert!(firing_shown(2, true) && !firing_shown(2, false));
    assert!(firing_shown(9, true));
    assert!(anomaly_shown(0, "info"));
    assert!(anomaly_shown(1, "warning") && anomaly_shown(1, "critical") && !anomaly_shown(1, "info"));
    assert!(anomaly_shown(2, "critical") && !anomaly_shown(2, "warning"));
}

#[test]
fn operation_lifecycle() {
    let mut c = ActiveConfig::new();
    assert_eq!(c.start_operation(7, "Op Seven".to_string(), "survey".to_string()), None);
    assert_eq!(c.active_operation_id, Some(7));
    assert_eq!(c.active_operation_name.as_deref(), Some("Op Seven"));
    assert_eq!(c.set_active_operator(3, "KD2ABC".to_string()), Some(7));
    c.session_opened(11);
    assert_eq!(c.active_session_id, Some(11));
    assert_eq!(c.set_active_operator(4, "N0CALL".to_string()), None);
    assert_eq!(c.pause_operation(), Some(11));
    assert_eq!(c.active_session_id, None);
    assert_eq!(c.active_operation_id, Some(7));
    assert_eq!(c.start_operation(7, "Op Seven".to_string(), "survey".to_string()), Some(4));
    c.session_opened(12);
    assert_eq!(c.clear_active_operator(), Some(12));
    assert_eq!(c.active_operator_id, None);
    assert_eq!(c.active_session_id, None);
    assert_eq!(c.stop_operation(), None);
    assert_eq!(c.active_operation_id, None);
    assert_eq!(c.active_operation_profile, None);
}

#[test]
fn facet_clicks_set_and_clear_filters() {
    let mut ws: WatchdogState<u32> = WatchdogState::new();
    ws.query_offset = 300;
    assert_eq!(ws.facet_filter("band"), "");
    assert!(!ws.facet_active("band", "VHF"));
    ws.click_facet("band", "VHF");
    assert_eq!(ws.event_band_filter, "VHF");
    assert_eq!(ws.query_offset, 0);
    assert!(ws.facet_active("band", "VHF"));
    ws.click_facet("band", "UHF");
    assert_eq!(ws.event_band_filter, "UHF");
    ws.click_facet("band", "UHF");
    assert_eq!(ws.event_band_filter, "");
    ws.click_facet("severity", "13");
    ws.click_facet("source", "2");
    ws.click_facet("event_type", "sigex.emitter.new");
    assert_eq!(ws.facet_filter("severity"), "13");
    assert_eq!(ws.facet_filter("source"), "2");
    assert_eq!(ws.facet_filter("event_type"), "sigex.emitter.new");
    ws.query_offset = 100;
    ws.click_facet("unknown", "x");
    assert_eq!(ws.query_offset, 0);
    assert_eq!(ws.facet_filter("unknown"), "");
    assert!(!ws.facet_active("band", ""));
}

#[test]
fn time_range_and_row_expansion() {
    let mut ws: WatchdogState<u32> = WatchdogState::new();
    ws.query_offset = 200;
    ws.select_time_range(1);
    assert_eq!((ws.event_time_range, ws.query_offset), (1, 0));
    ws.toggle_expanded(4);
    assert_eq!(ws.event_expanded, Some(4));
    ws.toggle_expanded(2);
    assert_eq!(ws.event_expanded, Some(2));
    ws.toggle_expanded(2);
    assert_eq!(ws.event_expanded, None);
}

#[test]
fn live_tail_toolbar_and_rows() {
    let mut ws: WatchdogState<u32> = WatchdogState::new();
    ws.live_tail_tactical = false;
    assert_eq!(ws.buffer_text(), "0");
    for k in 0..4u32 {
        ws.push_live_event(k, "x");
    }
    assert_eq!(ws.buffer_text(), "4");
    ws.live_tail_min_severity = 9;
    let sev = vec![13u8, 5, 9, 1];
    assert_eq!(ws.visible_rows(&sev), vec![2, 0]);
    ws.live_tail_min_severity = 0;
    assert_eq!(ws.visible_rows(&sev), vec![3, 2, 1, 0]);
    for k in 0..300u32 {
        ws.push_live_event(k, "x");
    }
    assert_eq!(ws.buffer_text(), format!("{} (FULL)", LIVE_TAIL_MAX));
}

#[test]
fn alert_list_texts() {
    assert_eq!(no_firings_message(0), "No firings");
    assert_eq!(no_firings_message(1), "No unacknowledged firings");
    assert_eq!(no_firings_message(2), "No acknowledged firings");
    assert_eq!(firing_status(true), "ACK");
    assert_eq!(firing_status(false), "NEW");
    let rules = vec![(3i64, AlertPriority::Low), (7, AlertPriority::Critical), (7, AlertPriority::Medium)];
    assert_eq!(rule_priority(&rules, 7), Some(AlertPriority::Critical));
    assert_eq!(rule_priority(&rules, 9), None);
}

#[test]
fn threat_banner_and_summaries() {
    assert_eq!(threat_level(21), ("HIGH THREAT", Swatch::Theme(ThemeColor::RedWatchdog)));
    assert_eq!(threat_level(20), ("ELEVATED", Swatch::Theme(ThemeColor::AmberWarning)));
    assert_eq!(threat_level(5), ("ELEVATED", Swatch::Theme(ThemeColor::AmberWarning)));
    assert_eq!(threat_level(4), ("LOW THREAT", Swatch::Theme(ThemeColor::GreenCollect)));
    let fifty = "a".repeat(50);
    assert_eq!(short_body(&fifty), fifty);
    assert_eq!(short_body(&"é".repeat(51)), format!("{}...", "é".repeat(50)));
    assert_eq!(time_range_label(0), "1H");
    assert_eq!(time_range_label(3), "7D");
    assert_eq!(time_range_label(2), "24H");
    assert_eq!(time_range_label(17), "24H");
}

#[test]
fn operation_status_actions() {
    assert_eq!(op_actions("created"), vec![OpAction::Start]);
    assert_eq!(op_actions("paused"), vec![OpAction::Start]);
    assert_eq!(op_actions("active"), vec![OpAction::Pause, OpAction::Stop]);
    assert_eq!(op_actions("completed"), vec![OpAction::Archive]);
    assert!(op_actions("archived").is_empty());
    assert!(op_actions("bogus").is_empty());
    assert_eq!(status_after(OpAction::Start), "active");
    assert_eq!(status_after(OpAction::Stop), "completed");
    assert_eq!(op_status_label("paused"), ("PAUSED", Swatch::Theme(ThemeColor::AmberWarning)));
    assert_eq!(op_status_label("created"), ("CREATED", Swatch::Theme(ThemeColor::BluePlan)));
    assert_eq!(op_status_label("odd"), ("odd", Swatch::Theme(ThemeColor::TextSecondary)));
    for status in ["created", "paused", "active", "completed", "archived"] {
        for a in op_actions(status) {
            assert_ne!(status_after(a), status);
            assert_ne!(status_after(a), "created");
        }
    }
}

#[test]
fn operation_and_operator_forms() {
    assert_eq!(new_operation_request("  ", "d", "test", None), None);
    assert_eq!(
        new_operation_request(" Night Watch ", " quiet ", "live", Some(3)),
        Some(("Night Watch".to_string(), "quiet".to_string(), "live".to_string(), Some(3)))
    );
    assert_eq!(new_operator_request("\t", "x", "y"), None);
    assert_eq!(
        new_operator_request(" KD2ABC ", " Ann ", ""),
        Some(("KD2ABC".to_string(), "Ann".to_string(), String::new()))
    );
    assert_eq!(unassigned_operators(&vec![1, 2, 3, 4], &vec![2, 4]), vec![0, 2]);
    assert_eq!(unassigned_operators(&vec![5], &vec![]), vec![0]);
}
