use rf_console::grants::{grant_age_secs, grant_age_text, grant_is_active, grant_is_encrypted, grant_kind, grant_row_alpha, age_from_stamp};
use rf_console::recording::plan_manual_recording;
use rf_console::suggest::{channel_suggestions, radio_id_suggestions, sorted_unique, talkgroup_suggestions};
use rf_console::sweep::{sweep_clock_text, sweep_preset, SweepState};
use rf_console::talkgroups::{department_scan, filter_talkgroups, group_by_department, group_watched, tg_matches, Talkgroup};
use rf_console::tg_groups::TgGroups;
use rf_console::text::utc_stamp;
use rf_console::watchdog::{emitter_cutoff, new_emitters};
use rf_console::weather::{active_wx_alerts, wx_in_force};

fn tg(tgid: i32, name: Option<&str>, dept: Option<&str>, tag: Option<&str>, scan: bool) -> Talkgroup {
    Talkgroup {
        tgid,
        name: name.map(|s| s.to_string()),
        department: dept.map(|s| s.to_string()),
        tag: tag.map(|s| s.to_string()),
        scan_enabled: scan,
    }
}

fn directory() -> Vec<Talkgroup> {
    vec![
        tg(1001, Some("Fire Dispatch"), Some("Fire"), Some("dispatch"), true),
        tg(2002, Some("PD Main"), Some("Police"), None, false),
        tg(1003, Some("Fire Tac 2"), Some("Fire"), Some("tac"), false),
        tg(3004, None, None, None, true),
        tg(2005, Some("PD Tac"), Some("Police"), Some("Tactical"), true),
    ]
}

#[test]
fn directory_search() {
    let tgs = directory();
    assert_eq!(filter_talkgroups(&tgs, ""), vec![0, 1, 2, 3, 4]);
    assert_eq!(filter_talkgroups(&tgs, "FIRE"), vec![0, 2]);
    assert_eq!(filter_talkgroups(&tgs, "tac"), vec![2, 4]);
    assert_eq!(filter_talkgroups(&tgs, "200"), vec![1, 4]);
    assert_eq!(filter_talkgroups(&tgs, "police"), vec![1, 4]);
    assert!(filter_talkgroups(&tgs, "ems").is_empty());
    assert!(tg_matches(&tg(-5, None, None, None, false), "-5"));
}

#[test]
fn directory_groups_by_department_in_first_seen_order() {
    let tgs = directory();
    let shown = filter_talkgroups(&tgs, "");
    let groups = group_by_department(&tgs, &shown);
    let expect: Vec<(String, Vec<usize>)> = vec![
        ("Fire".to_string(), vec![0, 2]),
        ("Police".to_string(), vec![1, 4]),
        ("(Unassigned)".to_string(), vec![3]),
    ];
    assert_eq!(groups, expect);
    let fire_only = group_by_department(&tgs, &filter_talkgroups(&tgs, "fire"));
    assert_eq!(fire_only, vec![("Fire".to_string(), vec![0, 2])]);
}

#[test]
fn department_scan_states() {
    let tgs = directory();
    let fire = department_scan(&tgs, &vec![0, 2]);
    assert_eq!((fire.watched, fire.total, fire.all_watched, fire.partial, fire.enable_on_click), (1, 2, false, true, false));
    let none = department_scan(&tgs, &vec![1]);
    assert_eq!((none.watched, none.all_watched, none.partial, none.enable_on_click), (0, false, false, true));
    let all = department_scan(&tgs, &vec![3, 4]);
    assert!(all.all_watched && !all.partial && !all.enable_on_click);
    assert_eq!(group_watched(&tgs, &vec![1001, 2002, 9999, 3004]), 2);
}

#[test]
fn watch_groups_edit_cycle() {
    let mut g = TgGroups::new();
    assert!(g.create("  Fire Units "));
    assert!(!g.create("Fire Units"));
    assert!(!g.create("   "));
    assert!(g.members("Fire Units").unwrap().is_empty());
    assert!(g.add_member("Fire Units", 1001));
    assert!(!g.add_member("Fire Units", 1001));
    assert!(g.add_member("Fire Units", 1003));
    assert!(!g.add_member("Nope", 1));
    assert_eq!(g.members("Fire Units").unwrap(), &vec![1001, 1003]);
    g.remove_member("Fire Units", 1001);
    assert_eq!(g.members("Fire Units").unwrap(), &vec![1003]);
    assert!(g.rename("Fire Units", " Fire "));
    assert!(g.members("Fire Units").is_none());
    assert_eq!(g.members("Fire").unwrap(), &vec![1003]);
    assert!(!g.rename("Fire", "Fire"));
    assert!(!g.rename("Missing", "X"));
    assert!(g.create("Police"));
    assert!(g.add_member("Police", 2002));
    assert!(g.rename("Police", "Fire"));
    assert_eq!(g.members("Fire").unwrap(), &vec![2002]);
    assert_eq!(g.names(), vec!["Fire".to_string()]);
    g.delete("Fire");
    assert!(g.names().is_empty());
}

#[test]
fn watch_group_add_then_remove_restores() {
    let mut g = TgGroups::new();
    g.create("A");
    g.add_member("A", 5);
    g.add_member("A", 7);
    let before = g.members("A").unwrap().clone();
    assert!(g.add_member("A", 9));
    g.remove_member("A", 9);
    assert_eq!(g.members("A").unwrap(), &before);
}

#[test]
fn grant_ages() {
    let now = 1_700_000_000i64;
    let stamp = chrono::DateTime::from_timestamp(now - 42, 0).unwrap().format("%Y-%m-%d %H:%M:%S").to_string();
    assert_eq!(grant_age_secs(&stamp, now), 42);
    assert_eq!(grant_age_secs(&stamp, now - 100), 0);
    assert_eq!(grant_age_secs("not a time", now), 999);
    assert_eq!(grant_age_secs("2023-11-14 22:13:20", 1_700_000_003), 3);
    assert_eq!(age_from_stamp(Some(i64::MIN), i64::MAX), i64::MAX);
    assert_eq!(age_from_stamp(None, 0), 999);
}

#[test]
fn grant_rows() {
    assert!(grant_is_active(4) && !grant_is_active(5));
    assert_eq!((grant_row_alpha(0), grant_row_alpha(5), grant_row_alpha(14), grant_row_alpha(15)), (255, 200, 200, 140));
    assert_eq!(grant_age_text(3), "\u{25CF} 3s");
    assert_eq!(grant_age_text(4), format!("{}{:>2}s", '\u{25CF}', 4));
    assert_eq!(grant_age_text(7), "  7s");
    assert_eq!(grant_age_text(42), " 42s");
    assert_eq!(grant_age_text(999), "999s");
    assert_eq!(grant_age_text(12345), "12345s");
    assert!(grant_is_encrypted(&Some("group_encrypted".to_string())));
    assert!(!grant_is_encrypted(&Some("group".to_string())));
    assert!(!grant_is_encrypted(&None));
    assert_eq!(grant_kind(&Some("unit_to_unit".to_string())), "UNT");
    assert_eq!(grant_kind(&Some("group".to_string())), "GRP");
    assert_eq!(grant_kind(&None), "GRP");
}

#[test]
fn sweep_timer() {
    assert_eq!(sweep_preset(0), Some(("VEHICLE_QUICK", "5 min", 300, "Fast vehicle sweep: common tracker bands, FM/LTE/GPS")));
    assert_eq!(sweep_preset(2).map(|p| p.2), Some(1200));
    assert_eq!(sweep_preset(3), None);
    let mut s = SweepState::new();
    assert!(s.can_start());
    assert!(!s.start(7));
    assert!(s.start(1));
    assert_eq!((s.active, s.protocol.as_str(), s.duration_sec), (true, "VEHICLE_THOROUGH", 900));
    assert!(!s.start(0));
    assert!(!s.tick(899));
    assert!(s.active);
    assert!(s.tick(900));
    assert!(!s.active && s.protocol.is_empty());
    assert!(!s.tick(5000));
    assert!(s.start(0));
    s.cancel();
    assert!(!s.active);
    assert_eq!(sweep_clock_text(65, 300), "1:05/5:00");
    assert_eq!(sweep_clock_text(0, 1200), "0:00/20:00");
    assert_eq!(sweep_clock_text(3599, 900), "59:59/15:00");
}

#[test]
fn suggestion_lists_sort_and_dedup() {
    let items: Vec<String> = ["b", "a", "", "ab", "b", "B", "é", "z"].iter().map(|s| s.to_string()).collect();
    let mut expect = items.clone();
    expect.sort();
    expect.dedup();
    assert_eq!(sorted_unique(&items), expect);
    assert!(sorted_unique(&Vec::new()).is_empty());

    let labels: Vec<String> = ["WX1", "", "Air", "WX1"].iter().map(|s| s.to_string()).collect();
    assert_eq!(channel_suggestions(&labels), vec!["Air".to_string(), "WX1".to_string()]);

    assert_eq!(radio_id_suggestions(&vec![30, 100, 30, -2]), vec!["-2".to_string(), "100".to_string(), "30".to_string()]);

    let tgs = vec![tg(200, Some("PD"), None, None, false), tg(1001, None, None, None, false), tg(200, Some("PD"), None, None, false)];
    assert_eq!(talkgroup_suggestions(&tgs), vec!["1001".to_string(), "200 \u{2014} PD".to_string()]);
}

#[test]
fn manual_recording_plan() {
    let p = plan_manual_recording("audio", "20240102_030405", "", 2_400_000);
    assert_eq!(p.file_name, "audio_20240102_030405.wav");
    assert_eq!(p.label, None);
    assert_eq!(p.sample_rate, 48000);
    assert!(p.audio);
    let q = plan_manual_recording("iq", "20240102_030405", "site A", 2_400_000);
    assert_eq!(q.file_name, "iq_20240102_030405.raw");
    assert_eq!(q.label.as_deref(), Some("site A"));
    assert_eq!(q.sample_rate, 2_400_000);
    assert!(!q.audio);
    assert_eq!(plan_manual_recording("iq", "x", "", 0).sample_rate, 48000);
    assert_eq!(plan_manual_recording("other", "x", "", 96000).sample_rate, 48000);
}

#[test]
fn new_emitters_are_those_of_the_last_day() {
    let now = 1_700_000_000i64;
    let cutoff = emitter_cutoff(now);
    assert_eq!(cutoff, "2023-11-13 22:13:20");
    let seen: Vec<String> = ["2023-11-13 22:13:19", "2023-11-13 22:13:20", "2023-11-14 01:00:00", "2022-01-01 00:00:00"]
        .iter().map(|s| s.to_string()).collect();
    assert_eq!(new_emitters(&seen, &cutoff), vec![1, 2]);
    assert_eq!(emitter_cutoff(i64::MIN), "");
}

#[test]
fn weather_alerts_in_force() {
    let now = 1_700_000_000i64;
    assert_eq!(utc_stamp(now), "2023-11-14 22:13:20");
    assert_eq!(utc_stamp(i64::MAX), "");
    assert!(wx_in_force(&None, "2023-11-14 22:13:20"));
    assert!(wx_in_force(&Some("2023-11-14 22:13:20".to_string()), "2023-11-14 22:13:20"));
    assert!(!wx_in_force(&Some("2023-11-14 22:13:19".to_string()), "2023-11-14 22:13:20"));
    let expiry = vec![
        Some("2023-11-14 23:00:00".to_string()),
        Some("2023-11-14 21:00:00".to_string()),
        None,
        Some("2024-01-01 00:00:00".to_string()),
    ];
    assert_eq!(active_wx_alerts(&expiry, now), vec![0, 2, 3]);
}
