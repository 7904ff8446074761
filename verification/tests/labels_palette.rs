use rf_console::heartbeat::{
    get_alert_color, get_alert_name, has_active_alerts, sdr_role_short, sdr_slot_color, sdr_slot_label, slot_name,
    AlertHighlight,
};
use rf_console::text::byte_prefix;
use rf_console::labels::{event_type_label, is_network_noise, sev_label_short, time_range_ns};
use rf_console::palette::{
    band_color, cls_color, event_type_color, parse_color, priority_color, severity_color, wx_severity_color,
    AlertPriority, Swatch, ThemeColor,
};

#[test]
fn event_types_get_short_labels() {
    assert_eq!(event_type_label("p25"), "P25");
    assert_eq!(event_type_label("tsbk"), "TSBK");
    assert_eq!(event_type_label("rds"), "RDS");
    assert_eq!(event_type_label("cqpsk_status"), "CQPSK");
    assert_eq!(event_type_label("adsb"), "adsb");
}

#[test]
fn severity_labels_follow_level_ranges() {
    let expected = [
        (0u8, "TRC"), (2, "TRC"), (3, "DBG"), (6, "DBG"), (7, "INF"), (10, "INF"), (11, "NTC"), (12, "NTC"),
        (13, "WRN"), (16, "WRN"), (17, "ERR"), (20, "ERR"), (21, "FTL"), (255, "FTL"),
    ];
    for (sev, label) in expected {
        assert_eq!(sev_label_short(sev), label, "severity {}", sev);
    }
}

#[test]
fn severity_colors_follow_level_ranges() {
    assert_eq!(severity_color(1), Swatch::Theme(ThemeColor::TextSecondary));
    assert_eq!(severity_color(5), Swatch::Theme(ThemeColor::TextSecondary));
    assert_eq!(severity_color(9), Swatch::Theme(ThemeColor::TextPrimary));
    assert_eq!(severity_color(11), Swatch::Theme(ThemeColor::TextPrimary));
    assert_eq!(severity_color(13), Swatch::Theme(ThemeColor::AmberWarning));
    assert_eq!(severity_color(17), Swatch::Theme(ThemeColor::RedWatchdog));
    assert_eq!(severity_color(21), Swatch::Rgb(255, 50, 50));
}

#[test]
fn tactical_filter_hides_housekeeping_only() {
    assert!(!is_network_noise("protocol.p25.voice"));
    assert!(!is_network_noise("system.site.exit"));
    assert!(!is_network_noise("sigex.network.emergency"));
    assert!(!is_network_noise("custom.my_rule"));
    assert!(!is_network_noise("custom."));
    assert!(is_network_noise("custom"));
    assert!(is_network_noise("protocol.p25.grant"));
    assert!(is_network_noise("system.heartbeat"));
    assert!(is_network_noise(""));
}

#[test]
fn time_ranges_default_to_a_day() {
    assert_eq!(time_range_ns(0), 3_600_000_000_000);
    assert_eq!(time_range_ns(1), 21_600_000_000_000);
    assert_eq!(time_range_ns(2), 86_400_000_000_000);
    assert_eq!(time_range_ns(3), 604_800_000_000_000);
    assert_eq!(time_range_ns(4), 86_400_000_000_000);
    assert_eq!(time_range_ns(usize::MAX), 86_400_000_000_000);
}

#[test]
fn band_and_class_colors() {
    assert_eq!(band_color("AM"), Swatch::Rgb(200, 160, 0));
    assert_eq!(band_color("P25"), Swatch::Rgb(0, 204, 255));
    assert_eq!(band_color("am"), Swatch::Theme(ThemeColor::TextSecondary));
    assert_eq!(cls_color("WX"), Swatch::Rgb(255, 153, 51));
    assert_eq!(cls_color("BCST"), Swatch::Rgb(200, 160, 0));
    assert_eq!(cls_color("XYZ"), Swatch::Rgb(88, 88, 88));
    assert_eq!(event_type_color("p25"), Swatch::Theme(ThemeColor::CyanP25));
    assert_eq!(event_type_color("tsbk"), Swatch::Rgb(100, 140, 200));
    assert_eq!(event_type_color("other"), Swatch::Theme(ThemeColor::TextSecondary));
    assert_eq!(wx_severity_color("Extreme"), Swatch::Theme(ThemeColor::RedWatchdog));
    assert_eq!(wx_severity_color("Minor"), Swatch::Rgb(200, 200, 60));
    assert_eq!(wx_severity_color("minor"), Swatch::Theme(ThemeColor::TextSecondary));
    assert_eq!(priority_color(&AlertPriority::High), Swatch::Rgb(255, 120, 50));
    assert_eq!(priority_color(&AlertPriority::Low), Swatch::Theme(ThemeColor::TextSecondary));
}

#[test]
fn hex_colors_parse_with_fallbacks() {
    assert_eq!(parse_color("#ff8800"), Swatch::Rgb(255, 136, 0));
    assert_eq!(parse_color("#FF3333"), Swatch::Rgb(255, 51, 51));
    assert_eq!(parse_color("#zz1020"), Swatch::Rgb(255, 16, 32));
    assert_eq!(parse_color("#10zz20"), Swatch::Rgb(16, 51, 32));
    assert_eq!(parse_color("#1020zz"), Swatch::Rgb(16, 32, 51));
    assert_eq!(parse_color("#+a+b+c"), Swatch::Rgb(10, 11, 12));
    assert_eq!(parse_color("#-1-1-1"), Swatch::Rgb(255, 51, 51));
}

#[test]
fn color_words_are_matched_lowercased() {
    assert_eq!(parse_color("Red"), Swatch::Theme(ThemeColor::RedWatchdog));
    assert_eq!(parse_color("ORANGE"), Swatch::Theme(ThemeColor::AmberWarning));
    assert_eq!(parse_color("Green"), Swatch::Theme(ThemeColor::GreenCollect));
    assert_eq!(parse_color("CYAN"), Swatch::Theme(ThemeColor::CyanP25));
    assert_eq!(parse_color("Pink"), Swatch::Theme(ThemeColor::MagentaExploit));
    assert_eq!(parse_color("mauve"), Swatch::Theme(ThemeColor::RedWatchdog));
    assert_eq!(parse_color("#12345"), Swatch::Theme(ThemeColor::RedWatchdog));
}

fn highlight(color: Option<&str>, name: Option<&str>) -> AlertHighlight {
    AlertHighlight { color: color.map(|c| c.to_string()), rule_name: name.map(|n| n.to_string()) }
}

#[test]
fn heartbeat_alert_highlights() {
    let none: Option<Vec<AlertHighlight>> = None;
    let empty: Option<Vec<AlertHighlight>> = Some(vec![]);
    let one = Some(vec![highlight(Some("#00ff00"), Some("Jammer")), highlight(Some("blue"), Some("Other"))]);
    let bare = Some(vec![highlight(None, None)]);

    assert!(!has_active_alerts(&none));
    assert!(!has_active_alerts(&empty));
    assert!(has_active_alerts(&one));

    assert_eq!(get_alert_name(&none), "ACTIVE");
    assert_eq!(get_alert_name(&empty), "ACTIVE");
    assert_eq!(get_alert_name(&one), "Jammer");
    assert_eq!(get_alert_name(&bare), "ACTIVE");

    assert_eq!(get_alert_color(&none), Swatch::Rgb(255, 51, 51));
    assert_eq!(get_alert_color(&bare), Swatch::Rgb(255, 51, 51));
    assert_eq!(get_alert_color(&one), Swatch::Rgb(0, 255, 0));
    assert_eq!(get_alert_color(&Some(vec![highlight(Some("Magenta"), None)])), Swatch::Theme(ThemeColor::MagentaExploit));
}

#[test]
fn sdr_slots_by_role_and_health() {
    assert_eq!(sdr_role_short("scan"), "SCN");
    assert_eq!(sdr_role_short("control"), "CC");
    assert_eq!(sdr_role_short("failed"), "FAIL");
    assert_eq!(sdr_role_short("tx"), "tx");
    assert_eq!(sdr_slot_color("scan", true, true), Swatch::Theme(ThemeColor::RedWatchdog));
    assert_eq!(sdr_slot_color("scan", false, false), Swatch::Theme(ThemeColor::TextSecondary));
    assert_eq!(sdr_slot_color("scan", true, false), Swatch::Theme(ThemeColor::GreenCollect));
    assert_eq!(sdr_slot_color("voice", true, false), Swatch::Theme(ThemeColor::CyanP25));
    assert_eq!(sdr_slot_color("cc", true, false), Swatch::Theme(ThemeColor::MagentaExploit));
    assert_eq!(sdr_slot_color("idle", true, false), Swatch::Theme(ThemeColor::TextSecondary));
}

#[test]
fn sdr_slot_labels() {
    let bands: Vec<String> = vec!["VHF".to_string(), "UHF".to_string()];
    assert_eq!(sdr_slot_label("RTL-SDR-Blog-V4", "scan", &bands), "RTL-SDR-:SCN[VHF,UHF]");
    assert_eq!(sdr_slot_label("HackRF", "monitor", &Vec::new()), "HackRF:MON");
    assert_eq!(sdr_slot_label("ééééé", "tx", &vec!["P25".to_string()]), "éééé:tx[P25]");
    assert_eq!(slot_name(Some(""), Some("rtl0")), "rtl0");
    assert_eq!(slot_name(Some("Roof"), Some("rtl0")), "Roof");
    assert_eq!(slot_name(None, None), "SDR");
    assert_eq!(slot_name(Some(""), None), "SDR");
}

#[test]
fn stamps_shorten_by_bytes() {
    let stamp = "2023-11-14 22:13:20";
    assert_eq!(byte_prefix(stamp, 10), "2023-11-14");
    assert_eq!(byte_prefix(stamp, 16), "2023-11-14 22:13");
    assert_eq!(byte_prefix("short", 16), "short");
    assert_eq!(byte_prefix("é", 1), "é");
    assert_eq!(byte_prefix("aé", 1), "a");
}
