use rf_console::text::{cell_text, format_age_ns, format_count, format_duration, format_size, format_timestamp_ns, truncate_str};

#[test]
fn count_gets_thousands_separators() {
    assert_eq!(format_count(0), "0");
    assert_eq!(format_count(999), "999");
    assert_eq!(format_count(1000), "1,000");
    assert_eq!(format_count(1234567), "1,234,567");
    assert_eq!(format_count(u64::MAX), "18,446,744,073,709,551,615");
}

#[test]
fn duration_uses_largest_whole_unit() {
    assert_eq!(format_duration(45), "45s");
    assert_eq!(format_duration(60), "1m");
    assert_eq!(format_duration(3599), "59m");
    assert_eq!(format_duration(7200), "2h");
    assert_eq!(format_duration(172800), "2d");
}

#[test]
fn age_counts_back_from_now() {
    let now = 10_000_000_000_000u64;
    assert_eq!(format_age_ns(now - 5_000_000_000, now), "5s ago");
    assert_eq!(format_age_ns(now - 300_000_000_000, now), "5m ago");
    assert_eq!(format_age_ns(now + 1, now), "0s ago");
}

#[test]
fn truncate_keeps_whole_characters() {
    assert_eq!(truncate_str("héllo", 2), "hé");
    assert_eq!(truncate_str("abc", 5), "abc");
    assert_eq!(truncate_str("abc", 3), "abc");
}

#[test]
fn timestamp_is_utc_time_of_day() {
    assert_eq!(format_timestamp_ns(3_723_000_000_000), "01:02:03");
    assert_eq!(format_timestamp_ns(86_400_000_000_000 + 59_999_999_999), "00:00:59");
}

fn float_size(bytes: u64) -> String {
    if bytes >= 1_073_741_824 {
        format!("{:.1} GB", bytes as f64 / 1_073_741_824.0)
    } else if bytes >= 1_048_576 {
        format!("{:.1} MB", bytes as f64 / 1_048_576.0)
    } else if bytes >= 1024 {
        format!("{:.1} KB", bytes as f64 / 1024.0)
    } else {
        format!("{} B", bytes)
    }
}

#[test]
fn size_picks_binary_unit() {
    assert_eq!(format_size(512), "512 B");
    assert_eq!(format_size(1024), "1.0 KB");
    assert_eq!(format_size(1536), "1.5 KB");
    assert_eq!(format_size(1_048_576), "1.0 MB");
    assert_eq!(format_size(5 * 1_073_741_824), "5.0 GB");
}

#[test]
fn size_matches_float_formatting() {
    let mut probes: Vec<u64> = vec![0, 1, 1023, 1024, 1075, 1076, 1280, 1331, 1332, 1_048_576, 1_310_720, 1_363_148];
    for k in 0..64u32 {
        let p = 1u64 << k;
        probes.push(p);
        probes.push(p - 1);
        probes.push(p + 1);
        probes.push(p.wrapping_mul(3) / 2);
        probes.push(p + p / 2 + 1);
    }
    probes.push(u64::MAX);
    probes.push(u64::MAX - 1024);
    probes.push((1u64 << 53) + 1);
    probes.push((1u64 << 53) + 3);
    probes.push((1u64 << 60) + 128);
    probes.push((1u64 << 60) + 384);
    let mut x: u64 = 0x9E37_79B9_7F4A_7C15;
    for _ in 0..2000 {
        x ^= x << 13;
        x ^= x >> 7;
        x ^= x << 17;
        probes.push(x);
        probes.push(x >> 20);
        probes.push(x >> 40);
        probes.push(x % 4096);
        probes.push((x % 1024) * 256 + 256);
    }
    for b in probes {
        assert_eq!(format_size(b), float_size(b), "bytes = {}", b);
    }
}

#[test]
fn long_cells_are_cut() {
    assert_eq!(cell_text("short"), "short");
    let eighty = "x".repeat(80);
    assert_eq!(cell_text(&eighty), eighty);
    let long = "y".repeat(81);
    assert_eq!(cell_text(&long), format!("{}...", "y".repeat(77)));
    let wide = "é".repeat(41);
    assert_eq!(cell_text(&wide), format!("{}...", wide));
    let wider = "é".repeat(90);
    assert_eq!(cell_text(&wider), format!("{}...", "é".repeat(77)));
}

#[test]
fn timestamp_rolls_over_days() {
    assert_eq!(format_timestamp_ns(0), "00:00:00");
    assert_eq!(format_timestamp_ns(1_700_000_000_123_456_789), "22:13:20");
}

#[test]
fn grouping_keeps_the_digits() {
    for n in [0u64, 7, 999, 1000, 1001, 65_536, 999_999, 1_000_000, 12_345_678_901, u64::MAX] {
        assert_eq!(format_count(n).replace(',', ""), n.to_string());
    }
}
