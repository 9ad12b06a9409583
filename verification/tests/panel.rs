use meetily::cli::panel::{hhmmss, render, render_fit, PanelState};

#[test]
fn record_only_shows_bytes_not_segments() {
    let s = PanelState {
        record_only: true,
        bytes_written: 2_097_152,
        elapsed_secs: 65,
        ..Default::default()
    };
    let out = render(&s);
    assert!(out.contains("recorded: 2.0 MB / 00:01:05"));
    assert!(!out.contains("segments:"));
}

#[test]
fn normal_shows_segments() {
    let s = PanelState { segments: 12, ..Default::default() };
    assert!(render(&s).contains("segments:12"));
}

#[test]
fn silence_warning_after_5s() {
    let s = PanelState { silent_secs: 6, ..Default::default() };
    assert!(render(&s).contains("⚠ no audio for 6s"));
}

#[test]
fn paused_shows_pause_state_not_rec() {
    let s = PanelState { paused: true, elapsed_secs: 83, ..Default::default() };
    let out = render(&s);
    assert!(out.contains("⏸ PAUSED 00:01:23"));
    assert!(!out.contains("REC"));
}

#[test]
fn pulse_toggles_dot() {
    let on = PanelState { pulse_on: true, ..Default::default() };
    let off = PanelState { pulse_on: false, ..Default::default() };
    assert!(render(&on).starts_with('●'));
    assert!(render(&off).starts_with('○'));
}

fn wide_state() -> PanelState {
    PanelState {
        elapsed_secs: 0,
        segments: 0,
        engine_model: "parakeet/parakeet-tdt-0.6b-v3-int8".to_string(),
        silent_secs: 82,
        ..Default::default()
    }
}

#[test]
fn render_is_render_fit_none() {
    let s = wide_state();
    assert_eq!(render(&s), render_fit(&s, None));
}

#[test]
fn fit_wide_keeps_everything() {
    let s = wide_state();
    let out = render_fit(&s, Some(200));
    assert!(out.contains("parakeet/parakeet-tdt-0.6b-v3-int8"));
    assert!(out.contains("segments:0"));
    assert!(out.contains("eq "));
    assert!(out.contains("mic "));
    assert!(out.contains("⚠ no audio for 82s"));
}

#[test]
fn fit_drops_model_first() {
    let s = wide_state();
    let out = render_fit(&s, Some(90));
    assert!(!out.contains("parakeet"));
    assert!(out.contains("segments:0"));
    assert!(out.contains("mic "));
    assert!(out.contains("⚠ no audio for 82s"));
    assert!(out.chars().count() <= 90);
}

#[test]
fn fit_drops_segments_second() {
    let s = wide_state();
    let out = render_fit(&s, Some(70));
    assert!(!out.contains("parakeet"));
    assert!(!out.contains("segments"));
    assert!(out.contains("eq "));
    assert!(out.contains("mic "));
    assert!(out.chars().count() <= 70);
}

#[test]
fn fit_drops_eq_third() {
    let s = wide_state();
    let out = render_fit(&s, Some(60));
    assert!(!out.contains("eq "));
    assert!(out.contains("mic "));
    assert!(out.chars().count() <= 60);
}

#[test]
fn fit_drops_meters_last_warn_protected() {
    let s = wide_state();
    let out = render_fit(&s, Some(40));
    assert!(!out.contains("mic "));
    assert!(out.contains("REC 00:00:00"));
    assert!(out.contains("⚠ no audio for 82s"));
    assert!(out.chars().count() <= 40);
}

#[test]
fn fit_tiny_truncates_with_ellipsis_never_wraps() {
    let s = wide_state();
    let out = render_fit(&s, Some(20));
    assert!(out.chars().count() <= 20);
    assert!(out.ends_with('…'));
    assert!(!out.contains('\n'));
}

#[test]
fn fit_zero_width_is_empty() {
    let s = wide_state();
    assert_eq!(render_fit(&s, Some(0)), "");
}

#[test]
fn fit_record_only_tail_drops_in_segments_slot() {
    let s = PanelState {
        record_only: true,
        bytes_written: 2_097_152,
        engine_model: "m".into(),
        ..Default::default()
    };
    let wide = render_fit(&s, Some(200));
    assert!(wide.contains("recorded: 2.0 MB"));
    let narrow = render_fit(&s, Some(45));
    assert!(!narrow.contains("recorded:"));
    assert!(narrow.contains("mic "));
    assert!(narrow.chars().count() <= 45);
}

#[test]
fn whole_lines_are_exact() {
    let s = PanelState {
        elapsed_secs: 3725,
        mic_cells: 2,
        system_cells: 9,
        bands: [0, 3, 7],
        segments: 7,
        engine_model: "whisper/base".to_string(),
        silent_secs: 5,
        pulse_on: true,
        ..Default::default()
    };
    assert_eq!(
        render(&s),
        "● REC 01:02:05 │ eq ▁▄█ │ mic ▮▮▯▯ sys ▮▮▮▮ │ segments:7 │ whisper/base │ ⚠ no audio for 5s"
    );
    assert_eq!(render(&PanelState::default()), "○ REC 00:00:00 │ eq ▁▁▁ │ mic ▯▯▯▯ sys ▯▯▯▯ │ segments:0");
    assert_eq!(render_fit(&s, Some(16)), "● REC 01:02:05 …");
    assert_eq!(render_fit(&s, Some(1)), "…");
}

#[test]
fn every_width_is_kept() {
    let s = PanelState { record_only: true, bytes_written: 123_456_789, ..wide_state() };
    for width in 0..160 {
        let out = render_fit(&s, Some(width));
        assert!(out.chars().count() <= width);
        assert!(!out.contains('\n'));
    }
}

#[test]
fn bar_heights() {
    let bars = ['▁', '▂', '▃', '▄', '▅', '▆', '▇', '█', '█'];
    for (height, bar) in bars.iter().enumerate() {
        let s = PanelState { bands: [height as u8, 0, 0], ..Default::default() };
        assert!(render(&s).contains(&format!("eq {}▁▁", bar)));
    }
}

#[test]
fn clock_of_long_recordings() {
    assert_eq!(hhmmss(0), "00:00:00");
    assert_eq!(hhmmss(59), "00:00:59");
    assert_eq!(hhmmss(3599), "00:59:59");
    assert_eq!(hhmmss(360_000), "100:00:00");
    assert_eq!(hhmmss(u64::MAX), format!("{}:{:02}:{:02}", u64::MAX / 3600, (u64::MAX % 3600) / 60, u64::MAX % 60));
}

#[test]
fn megabytes_print_like_floating_point() {
    let mut sizes = vec![
        0,
        1,
        52_428,
        52_429,
        262_144,
        786_432,
        1_310_720,
        (1 << 53) - 1,
        (1 << 53) + 1,
        (1 << 53) + 3,
        9_007_199_254_792_193,
        u64::MAX / 3,
        u64::MAX - 1024,
        u64::MAX - 1023,
        u64::MAX,
    ];
    let mut n: u64 = 1;
    for _ in 0..2000 {
        n = n.wrapping_mul(6_364_136_223_846_793_005).wrapping_add(1_442_695_040_888_963_407);
        sizes.push(n);
        sizes.push(n >> 20);
        sizes.push(n >> 40);
        sizes.push((n >> 44) * 262_144);
    }
    for bytes in sizes {
        let s = PanelState { record_only: true, bytes_written: bytes, ..Default::default() };
        let expected = format!("recorded: {:.1} MB / 00:00:00", bytes as f64 / 1_048_576.0);
        assert!(render(&s).contains(&expected), "{} {}", bytes, expected);
    }
}
