use rf_console::palette::{Swatch, ThemeColor};
use rf_console::parsing::parse_i32;
use rf_console::targets::{key_suggestions, priority_label, target_type_color, SuggestionKind, TargetForm};

#[test]
fn i32_parses_like_std() {
    for s in ["0", "-0", "+7", "2147483647", "2147483648", "-2147483648", "-2147483649", "", "-", "x1", "3"] {
        assert_eq!(parse_i32(s), s.parse::<i32>().ok(), "{:?}", s);
    }
}

#[test]
fn new_target_form_cycle() {
    let mut f = TargetForm::new();
    assert!(!f.visible);
    f.toggle();
    assert!(f.visible);
    assert_eq!(f.target_type, "frequency");
    assert_eq!(f.key_hint(), "e.g. 155.7300");
    assert_eq!(f.suggestion_kind(), SuggestionKind::Frequencies);
    assert!(!f.can_create());
    assert!(f.create_request().is_none());
    f.key = "155.7300".to_string();
    f.set_type("frequency");
    assert_eq!(f.key, "155.7300");
    f.set_type("talkgroup");
    assert_eq!(f.key, "");
    assert_eq!(f.suggestion_kind(), SuggestionKind::Talkgroups);
    assert_eq!(f.key_hint(), "e.g. 1001");
    f.pick_suggestion("1001 \u{2014} PPB Dispatch");
    assert_eq!(f.key, "1001");
    f.pick_suggestion(" 77 ");
    assert_eq!(f.key, "77");
    f.label = "Dispatch".to_string();
    f.priority = "2".to_string();
    let r = f.create_request().unwrap();
    assert_eq!((r.target_type.as_str(), r.key.as_str(), r.label.as_deref(), r.priority, r.notes.as_deref()), ("talkgroup", "77", Some("Dispatch"), 2, None));
    f.priority = "high".to_string();
    assert_eq!(f.create_request().unwrap().priority, 0);
    f.saved();
    assert!(!f.visible && f.key.is_empty() && f.label.is_empty());
    f.key = "   ".to_string();
    assert!(!f.can_create());
}

#[test]
fn editing_a_target() {
    let mut f = TargetForm::new();
    assert!(f.update_request().is_none());
    f.edit(42, "radio_id", "12345", &None, -3, &Some("seen twice".to_string()));
    assert!(f.visible);
    assert_eq!(f.priority, "-3");
    f.pick_suggestion("12346 \u{2014} x");
    assert_eq!(f.key, "12346 \u{2014} x");
    let u = f.update_request().unwrap();
    assert_eq!((u.id, u.label.as_deref(), u.priority, u.notes.as_deref()), (42, None, Some(-3), Some("seen twice")));
    f.toggle();
    assert!(!f.visible);
    assert_eq!(f.editing_id, None);
    assert_eq!(f.key, "12346 \u{2014} x");
}

#[test]
fn key_box_suggestions() {
    let s: Vec<String> = ["1001 \u{2014} Fire", "1002 \u{2014} FIRE tac", "2001 \u{2014} Police", "fireworks"]
        .iter().map(|x| x.to_string()).collect();
    assert_eq!(key_suggestions(&s, "  Fire "), vec![0, 1, 3]);
    assert_eq!(key_suggestions(&s, "   "), Vec::<usize>::new());
    assert_eq!(key_suggestions(&s, "100"), vec![0, 1]);
    let many: Vec<String> = (0..20).map(|k| format!("ch{}", k)).collect();
    assert_eq!(key_suggestions(&many, "CH"), (0..8).collect::<Vec<usize>>());
}

#[test]
fn target_labels_and_colors() {
    assert_eq!(priority_label("3"), "critical (3)");
    assert_eq!(priority_label("0"), "low (0)");
    assert_eq!(priority_label("7"), "7");
    assert_eq!(target_type_color("talkgroup"), Swatch::Theme(ThemeColor::CyanP25));
    assert_eq!(target_type_color("uid"), Swatch::Theme(ThemeColor::AmberWarning));
    assert_eq!(target_type_color("site"), Swatch::Theme(ThemeColor::TextPrimary));
}
