use std::collections::HashMap;

use rf_console::dispatch::{dispatch_matches, event_summary, filter_dispatch, str_contains, DispatchFilter, ProtocolEvent, DISPATCH_ROWS};
use rf_console::feed::newest_entries;
use rf_console::filters::{
    decompose_filter, field_at, field_display, filter_val_str, parse_filter_value, recompose_filter, value_suggestions,
    EditText, Facets, Field, Filter, FilterValue,
};
use rf_console::parsing::{parse_i64, parse_u8};
use rf_console::watchdog::WatchdogState;

fn float_of(s: &str) -> Option<f64> {
    s.parse::<f64>().ok()
}

fn text(e: EditText<f64>) -> String {
    match e {
        EditText::Text(s) => s,
        EditText::Float(f) => f.to_string(),
    }
}

#[test]
fn integers_parse_like_std() {
    for s in ["0", "7", "+5", "255", "256", "-0", "-1", "", "+", "-", "1a", " 1", "00012"] {
        assert_eq!(parse_u8(s), s.parse::<u8>().ok(), "u8 {:?}", s);
    }
    for s in [
        "0", "-0", "+12", "-12", "9223372036854775807", "9223372036854775808", "-9223372036854775808",
        "-9223372036854775809", "", "-", "+-1", "1.5", "٣",
    ] {
        assert_eq!(parse_i64(s), s.parse::<i64>().ok(), "i64 {:?}", s);
    }
}

#[test]
fn operands_parse_in_order() {
    assert!(matches!(parse_filter_value("42", float_of("42")), FilterValue::Int(42)));
    assert!(matches!(parse_filter_value("-7", float_of("-7")), FilterValue::Int(-7)));
    assert!(matches!(parse_filter_value("4.5", float_of("4.5")), FilterValue::Float(x) if x == 4.5));
    assert!(matches!(parse_filter_value("true", float_of("true")), FilterValue::Bool(true)));
    assert!(matches!(parse_filter_value("false", float_of("false")), FilterValue::Bool(false)));
    assert!(matches!(parse_filter_value("True", float_of("True")), FilterValue::String(ref s) if s == "True"));
    assert!(matches!(parse_filter_value("p25", float_of("p25")), FilterValue::String(ref s) if s == "p25"));
}

#[test]
fn operand_text() {
    assert_eq!(text(filter_val_str(&FilterValue::<f64>::Int(-42))), "-42");
    assert_eq!(text(filter_val_str(&FilterValue::<f64>::Int(i64::MIN))), i64::MIN.to_string());
    assert_eq!(text(filter_val_str(&FilterValue::<f64>::Bool(true))), "true");
    assert_eq!(text(filter_val_str(&FilterValue::<f64>::String("abc".to_string()))), "abc");
    assert!(matches!(filter_val_str(&FilterValue::Float(2.5f64)), EditText::Float(x) if x == 2.5));
}

#[test]
fn filters_decompose_for_the_editor() {
    let (op, field, t) = decompose_filter(&Filter::Gte(Field::Severity, FilterValue::<f64>::Int(13)));
    assert_eq!((op, field, text(t)), (3, Field::Severity, "13".to_string()));
    let (op, field, t) = decompose_filter(&Filter::<f64>::Like(Field::EventType, "sigex.%".to_string()));
    assert_eq!((op, field, text(t)), (7, Field::EventType, "sigex.%".to_string()));
    let (op, field, t) = decompose_filter(&Filter::<f64>::Exists(Field::Band));
    assert_eq!((op, field, text(t)), (0, Field::EventType, String::new()));
}

#[test]
fn filters_recompose_from_the_editor() {
    assert!(matches!(recompose_filter(1, Field::Talkgroup, "100", float_of("100")), Filter::Ne(Field::Talkgroup, FilterValue::Int(100))));
    assert!(matches!(recompose_filter(6, Field::Body, "100", float_of("100")), Filter::Contains(Field::Body, ref s) if s == "100"));
    assert!(matches!(recompose_filter(9, Field::Encrypted, "true", None::<f64>), Filter::Eq(Field::Encrypted, FilterValue::Bool(true))));
    assert!(matches!(recompose_filter(5, Field::FreqMhz, "462.5625", float_of("462.5625")), Filter::Lte(Field::FreqMhz, FilterValue::Float(x)) if x == 462.5625));
}

fn same_value(a: &FilterValue<f64>, b: &FilterValue<f64>) -> bool {
    match (a, b) {
        (FilterValue::String(x), FilterValue::String(y)) => x == y,
        (FilterValue::Int(x), FilterValue::Int(y)) => x == y,
        (FilterValue::Float(x), FilterValue::Float(y)) => x == y,
        (FilterValue::Bool(x), FilterValue::Bool(y)) => x == y,
        _ => false,
    }
}

fn same_filter(a: &Filter<f64>, b: &Filter<f64>) -> bool {
    match (a, b) {
        (Filter::Eq(f, x), Filter::Eq(g, y))
        | (Filter::Ne(f, x), Filter::Ne(g, y))
        | (Filter::Gt(f, x), Filter::Gt(g, y))
        | (Filter::Gte(f, x), Filter::Gte(g, y))
        | (Filter::Lt(f, x), Filter::Lt(g, y))
        | (Filter::Lte(f, x), Filter::Lte(g, y)) => f == g && same_value(x, y),
        (Filter::Contains(f, x), Filter::Contains(g, y)) | (Filter::Like(f, x), Filter::Like(g, y)) => f == g && x == y,
        (Filter::Exists(f), Filter::Exists(g)) => f == g,
        _ => false,
    }
}

#[test]
fn editing_a_filter_unchanged_gives_it_back() {
    let samples: Vec<Filter<f64>> = vec![
        Filter::Eq(Field::EventType, FilterValue::String("protocol.p25.voice".to_string())),
        Filter::Ne(Field::Talkgroup, FilterValue::Int(-12)),
        Filter::Gt(Field::Severity, FilterValue::Int(i64::MAX)),
        Filter::Lt(Field::Encrypted, FilterValue::Bool(false)),
        Filter::Lte(Field::FreqMhz, FilterValue::Float(151.25)),
        Filter::Contains(Field::Body, "42".to_string()),
        Filter::Like(Field::DeviceKey, "rtl%".to_string()),
    ];
    for f in samples {
        let (op, field, t) = decompose_filter(&f);
        let shown = text(t);
        let back = recompose_filter(op, field, &shown, float_of(&shown));
        assert!(same_filter(&back, &f));
    }
}

#[test]
fn editor_fields_in_menu_order() {
    assert_eq!(field_at(0), Some(Field::EventType));
    assert_eq!(field_at(5), Some(Field::SourceUnit));
    assert_eq!(field_at(11), Some(Field::Body));
    assert_eq!(field_at(12), None);
    assert_eq!(field_display(&Field::SourceUnit), "Radio Unit ID");
    assert_eq!(field_display(&Field::DeviceKey), "Device");
    assert_eq!(field_display(&Field::Attribute), "Attribute");
}

fn facets() -> Facets {
    vec![
        ("band".to_string(), vec![("VHF".to_string(), 10), ("220".to_string(), 3), ("VH".to_string(), 1)]),
        ("band".to_string(), vec![("IGNORED".to_string(), 1)]),
        ("severity".to_string(), vec![("9".to_string(), 50), ("3".to_string(), 1)]),
        ("event_type".to_string(), vec![("spectrum.detect".to_string(), 5), ("custom.x".to_string(), 2), ("custom.x".to_string(), 1)]),
    ]
}

#[test]
fn suggestions_merge_known_and_database_values() {
    let bands = value_suggestions(8, &facets());
    assert_eq!(bands.len(), 12);
    assert_eq!(bands[0], "VHF");
    assert_eq!(bands[11], "220");
    assert!(!bands.contains(&"IGNORED".to_string()));

    let sev = value_suggestions(1, &facets());
    assert_eq!(sev.len(), 8);
    assert_eq!(sev[0], "1 (TRACE)");
    assert_eq!(sev[7], "3");

    let types = value_suggestions(0, &facets());
    assert_eq!(types.len(), 28);
    assert_eq!(types[27], "custom.x");

    assert_eq!(value_suggestions(7, &facets()), vec!["true".to_string(), "false".to_string()]);
    assert_eq!(value_suggestions(2, &Vec::new()).len(), 6);
    assert!(value_suggestions(4, &facets()).is_empty());
    assert!(value_suggestions(99, &facets()).is_empty());
}

#[test]
fn event_tab_filters_from_the_boxes() {
    let mut ws: WatchdogState<u32> = WatchdogState::new();
    assert!(ws.event_filters::<f64>().is_empty());
    ws.event_type_filter = "sigex.*".to_string();
    ws.event_severity_filter = "13".to_string();
    ws.event_band_filter = "VHF".to_string();
    ws.event_source_filter = "x".to_string();
    let f = ws.event_filters::<f64>();
    assert_eq!(f.len(), 3);
    assert!(matches!(&f[0], Filter::Like(Field::EventType, s) if s == "sigex.%"));
    assert!(matches!(&f[1], Filter::Eq(Field::Severity, FilterValue::Int(13))));
    assert!(matches!(&f[2], Filter::Eq(Field::Band, FilterValue::String(s)) if s == "VHF"));
    ws.event_type_filter = "protocol.p25.voice".to_string();
    ws.event_severity_filter = "300".to_string();
    ws.event_band_filter.clear();
    ws.event_source_filter = "2".to_string();
    let f = ws.event_filters::<f64>();
    assert_eq!(f.len(), 2);
    assert!(matches!(&f[0], Filter::Eq(Field::EventType, FilterValue::String(s)) if s == "protocol.p25.voice"));
    assert!(matches!(&f[1], Filter::Eq(Field::Source, FilterValue::Int(2))));
}

#[test]
fn threat_feed_is_newest_first_and_stable() {
    let items = vec![(5u64, 'a'), (9, 'b'), (5, 'c'), (1, 'd'), (9, 'e')];
    assert_eq!(newest_entries(items.clone(), 100), vec![(9, 'b'), (9, 'e'), (5, 'a'), (5, 'c'), (1, 'd')]);
    assert_eq!(newest_entries(items, 2), vec![(9, 'b'), (9, 'e')]);
    assert!(newest_entries(Vec::<(u64, u8)>::new(), 10).is_empty());
    let many: Vec<(u64, usize)> = (0..150).map(|k| ((k % 7) as u64, k)).collect();
    let top = newest_entries(many, 100);
    assert_eq!(top.len(), 100);
    assert!(top.windows(2).all(|w| w[0].0 >= w[1].0));
}

fn p25(tg: Option<u32>, uid: Option<u32>, enc: Option<bool>) -> ProtocolEvent {
    ProtocolEvent {
        event_type: "p25".to_string(),
        talkgroup: tg,
        source_unit: uid,
        encrypted: enc,
        opcode: None,
        rds_ps: None,
        rds_pi: None,
    }
}

#[test]
fn dispatch_summaries() {
    let mut names = HashMap::new();
    names.insert(100u32, "Fire Dispatch".to_string());
    assert_eq!(event_summary(&p25(Some(100), Some(5001), Some(true)), &names), "TG:100 (Fire Dispatch) UID:5001 ENC");
    assert_eq!(event_summary(&p25(Some(200), None, Some(false)), &names), "TG:200 ");
    assert_eq!(event_summary(&p25(None, Some(7), None), &names), "TG:-- UID:7");
    let tsbk = ProtocolEvent { event_type: "tsbk".to_string(), opcode: Some("GRP_V_CH_GRANT".to_string()), ..p25(Some(3), Some(4), None) };
    assert_eq!(event_summary(&tsbk, &names), "GRP_V_CH_GRANT TG:3 UID:4");
    let tsbk_bare = ProtocolEvent { event_type: "tsbk".to_string(), ..p25(None, None, None) };
    assert_eq!(event_summary(&tsbk_bare, &names), "??");
    let rds = ProtocolEvent { event_type: "rds".to_string(), rds_ps: Some("KQED".to_string()), rds_pi: Some(0x0a3f), ..p25(None, None, None) };
    assert_eq!(event_summary(&rds, &names), "KQED PI:0A3F");
    let rds_bare = ProtocolEvent { event_type: "rds".to_string(), ..p25(None, None, None) };
    assert_eq!(event_summary(&rds_bare, &names), "--");
    let other = ProtocolEvent { event_type: "cqpsk_status".to_string(), ..p25(Some(1), None, None) };
    assert_eq!(event_summary(&other, &names), "cqpsk_status");
}

#[test]
fn substring_search() {
    assert!(str_contains("fire dispatch", "dispatch"));
    assert!(str_contains("abc", ""));
    assert!(!str_contains("ab", "abc"));
    assert!(str_contains("héllo", "él"));
}

fn dispatch_filter() -> DispatchFilter {
    DispatchFilter {
        type_filters: vec!["p25".to_string(), "tsbk".to_string()],
        filter_tg: None,
        filter_uid: None,
        enc_only: false,
        filter_dept: None,
        search: String::new(),
    }
}

#[test]
fn dispatch_filtering() {
    let mut names = HashMap::new();
    names.insert(100u32, "Fire Dispatch".to_string());
    let mut depts = HashMap::new();
    depts.insert(100u32, "Fire".to_string());
    depts.insert(200u32, "Police".to_string());
    let events = vec![
        p25(Some(100), Some(1), Some(true)),
        p25(Some(200), Some(2), None),
        ProtocolEvent { event_type: "rds".to_string(), ..p25(Some(100), None, None) },
        p25(None, Some(3), Some(true)),
    ];
    let mut f = dispatch_filter();
    assert_eq!(filter_dispatch(&events, &f, &names, &depts), vec![0, 1, 3]);
    f.enc_only = true;
    assert_eq!(filter_dispatch(&events, &f, &names, &depts), vec![0, 3]);
    f.enc_only = false;
    f.filter_dept = Some("Police".to_string());
    assert_eq!(filter_dispatch(&events, &f, &names, &depts), vec![1]);
    f.filter_dept = None;
    f.search = "FIRE".to_string();
    assert_eq!(filter_dispatch(&events, &f, &names, &depts), vec![0]);
    f.search = "poli".to_string();
    assert_eq!(filter_dispatch(&events, &f, &names, &depts), vec![1]);
    f.search = "UID:3".to_string();
    assert_eq!(filter_dispatch(&events, &f, &names, &depts), vec![3]);
    f.search.clear();
    f.filter_tg = Some(200);
    assert!(dispatch_matches(&events[1], &f, &names, &depts));
    assert!(!dispatch_matches(&events[0], &f, &names, &depts));
    f.filter_tg = None;
    f.filter_uid = Some(3);
    assert_eq!(filter_dispatch(&events, &f, &names, &depts), vec![3]);
}

#[test]
fn dispatch_log_is_capped() {
    let events: Vec<ProtocolEvent> = (0..250).map(|k| p25(Some(k), None, None)).collect();
    let shown = filter_dispatch(&events, &dispatch_filter(), &HashMap::new(), &HashMap::new());
    assert_eq!(shown.len(), DISPATCH_ROWS);
    assert_eq!(shown[99], 99);
}
