use rf_console::iq::{iq_sample_words, iq_tab_label, spectrum_window, time_window, IqViewer, IqViewerTab, IQ_DEFAULT_ZOOM, IQ_MAX_SAMPLES};
use rf_console::tuning::{freq_to_digits, toggle_band};

#[test]
fn frequency_digits() {
    assert_eq!(freq_to_digits(4_625_625), [4, 6, 2, 5, 6, 2, 5]);
    assert_eq!(freq_to_digits(0), [0; 7]);
    assert_eq!(freq_to_digits(9_999_999), [9; 7]);
    assert_eq!(freq_to_digits(1_512_500), [1, 5, 1, 2, 5, 0, 0]);
    assert_eq!(freq_to_digits(123_456_789), [3, 4, 5, 6, 7, 8, 9]);
}

fn owned(v: &[&str]) -> Vec<String> {
    v.iter().map(|s| s.to_string()).collect()
}

#[test]
fn band_toggle_flips_membership() {
    let mut bands = owned(&["VHF", "UHF"]);
    toggle_band(&mut bands, "HF");
    assert_eq!(bands, owned(&["VHF", "UHF", "HF"]));
    toggle_band(&mut bands, "VHF");
    assert_eq!(bands, owned(&["UHF", "HF"]));
    let mut dup = owned(&["AM", "FM", "AM"]);
    toggle_band(&mut dup, "AM");
    assert_eq!(dup, owned(&["FM"]));
}

#[test]
fn band_toggle_twice_restores() {
    let start = owned(&["P25", "GMRS"]);
    let mut bands = start.clone();
    toggle_band(&mut bands, "FEDV");
    toggle_band(&mut bands, "FEDV");
    assert_eq!(bands, start);
}

#[test]
fn tab_labels() {
    assert_eq!(iq_tab_label(IqViewerTab::TimeDomain), "TIME DOMAIN");
    assert_eq!(iq_tab_label(IqViewerTab::Spectrum), "SPECTRUM");
    assert_eq!(iq_tab_label(IqViewerTab::Fingerprint), "FINGERPRINT");
}

#[test]
fn capture_bytes_split_into_sample_pairs() {
    let samples: Vec<(f32, f32)> = vec![(0.5, -0.25), (1.0e-3, 3.5), (-0.0, f32::MIN_POSITIVE)];
    let mut bytes: Vec<u8> = Vec::new();
    for (i, q) in &samples {
        bytes.extend_from_slice(&i.to_le_bytes());
        bytes.extend_from_slice(&q.to_le_bytes());
    }
    bytes.extend_from_slice(&[1, 2, 3, 4, 5]);
    let words = iq_sample_words(&bytes);
    assert_eq!(words.len(), 3);
    for (k, (wi, wq)) in words.iter().enumerate() {
        assert_eq!(f32::from_bits(*wi).to_bits(), samples[k].0.to_bits());
        assert_eq!(f32::from_bits(*wq).to_bits(), samples[k].1.to_bits());
    }
    assert!(iq_sample_words(&[0u8; 7]).is_empty());
}

#[test]
fn capture_is_capped() {
    let bytes = vec![0u8; 8 * (IQ_MAX_SAMPLES + 3)];
    assert_eq!(iq_sample_words(&bytes).len(), IQ_MAX_SAMPLES);
}

#[test]
fn time_window_is_pulled_back_to_fit() {
    assert_eq!(time_window(10_000, 4096, 0), (0, 4096));
    assert_eq!(time_window(10_000, 4096, 9_000), (5_904, 10_000));
    assert_eq!(time_window(1_000, 4096, 500), (0, 1_000));
    assert_eq!(time_window(0, 4096, 7), (0, 0));
}

#[test]
fn spectrum_window_uses_a_power_of_two() {
    assert_eq!(spectrum_window(10_000, 4096, 0), (4096, 0, 4096));
    assert_eq!(spectrum_window(10_000, 3000, 9_000), (4096, 5_904, 10_000));
    assert_eq!(spectrum_window(1_000, 4096, 300), (1024, 0, 1_000));
    assert_eq!(spectrum_window(50, 4096, 0), (64, 0, 50));
    assert_eq!(spectrum_window(100_000, 10, 5), (64, 5, 69));
    for (total, zoom, offset) in [(5000usize, 1500usize, 4000usize), (1 << 20, 65_536, 1 << 19), (777, 100, 700)] {
        let fft = zoom.min(total).max(64).next_power_of_two();
        let start = offset.min(total.saturating_sub(fft));
        let end = (start + fft).min(total);
        assert_eq!(spectrum_window(total, zoom, offset), (fft, start, end));
    }
}

#[test]
fn analyzer_opens_at_the_start() {
    let mut v = IqViewer::new();
    assert!(!v.open);
    v.offset = 900;
    v.zoom = 1024;
    v.select_tab(IqViewerTab::Spectrum);
    v.fp_status = Some("matched".to_string());
    v.open_capture("/data/iq_1.raw");
    assert!(v.open);
    assert_eq!(v.file.as_deref(), Some("/data/iq_1.raw"));
    assert_eq!((v.offset, v.zoom, v.tab, v.fp_status.clone()), (0, IQ_DEFAULT_ZOOM, IqViewerTab::TimeDomain, None));
    v.offset = 9_000;
    assert_eq!(v.time_range(10_000), (5_904, 10_000));
}
