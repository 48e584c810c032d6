use pixelflux::encoders::Codec;
use pixelflux::log::{debug_enabled, set_debug, DebugSwitch};
use pixelflux::settings::{
    extract_settings, sanitize_dim, sanitize_fps, sanitize_quality, sanitize_scale, LiveTunables,
    Fixed, RawSettings, RustCaptureSettings,
};
use pixelflux::text::{
    append_signed, append_unsigned, chars_of, contains, lines, next_word, parse_signed32,
    parse_unsigned, split, strip_0x, trim,
};

fn raw() -> RawSettings {
    RawSettings {
        watermark_path: None,
        scale: None,
        capture_width: 1280,
        capture_height: 720,
        capture_x: 1,
        capture_y: 2,
        target_fps: Fixed::Finite(60_000),
        jpeg_quality: 80,
        paint_over_jpeg_quality: 95,
        use_paint_over_quality: true,
        paint_over_trigger_frames: 10,
        damage_block_threshold: 15,
        damage_block_duration: 30,
        output_mode: 1,
        video_crf: 23,
        video_paintover_crf: 18,
        video_paintover_burst_frames: 5,
        video_fullcolor: false,
        video_fullframe: true,
        video_streaming_mode: false,
        capture_cursor: true,
        cursor_size_cap: None,
        watermark_location_enum: 0,
        encode_node_index: -1,
        use_cpu: false,
        debug_logging: false,
        auto_adjust_screen_capture_size: None,
        recording_socket: Some("/tmp/s".to_string()),
        wayland_host_display: None,
        omit_stripe_headers: None,
        video_cbr_mode: true,
        video_bitrate_kbps: 4000,
        video_vbv_multiplier_milli: None,
        keyframe_interval_ms: Some(2000),
        video_min_qp: None,
        video_max_qp: Some(40),
    }
}

#[test]
fn settings_are_read_with_their_defaults() {
    let s = extract_settings(raw());
    assert_eq!((s.width, s.height, s.capture_x, s.capture_y), (1280, 720, 1, 2));
    assert_eq!((s.scale_micro, s.target_fps_milli, s.cursor_size_cap), (1_000_000, 60_000, 32));
    assert_eq!((s.keyframe_interval_ms, s.video_vbv_multiplier_milli, s.video_max_qp), (2000, 0, 40));
    assert_eq!(s.recording_socket, "/tmp/s");
    assert!(s.wayland_host_display.is_empty() && !s.omit_stripe_headers);
    assert_eq!(s.output_mode, 1);
}

#[test]
fn values_are_kept_in_bounds() {
    assert_eq!((sanitize_dim(-5), sanitize_dim(640), sanitize_dim(99_999)), (0, 640, 16384));
    assert_eq!((sanitize_quality(0), sanitize_quality(50), sanitize_quality(101)), (1, 50, 100));
    assert_eq!(sanitize_fps(Fixed::Finite(30_000)), 30_000);
    assert_eq!(sanitize_fps(Fixed::Finite(5_000_000)), 1_000_000);
    assert_eq!(sanitize_fps(Fixed::Finite(0)), 60_000);
    assert_eq!(sanitize_fps(Fixed::NotFinite), 60_000);
    assert_eq!(sanitize_scale(Fixed::Finite(9_000_000)), 8_000_000);
    assert_eq!(sanitize_scale(Fixed::NotFinite), 1_000_000);
}

/// Tunables taken of one session and applied to another carry over, and nothing else does.
#[test]
fn tunables_carry_over() {
    let mut a = RustCaptureSettings::default();
    a.video_crf = 31;
    a.keyframe_interval_ms = 700;
    a.width = 5;
    let mut b = RustCaptureSettings::default();
    LiveTunables::from_settings(&a).apply_to(&mut b);
    assert_eq!((b.video_crf, b.keyframe_interval_ms, b.width), (31, 700, 1024));
    assert_eq!(b.codec, Codec::Jpeg);
}

#[test]
fn debug_lines_follow_the_switch_or_the_environment() {
    let mut quiet = DebugSwitch::new(None);
    assert!(!debug_enabled(&quiet));
    set_debug(&mut quiet, true);
    assert!(debug_enabled(&quiet));
    set_debug(&mut quiet, false);
    assert!(!debug_enabled(&quiet));
    assert!(debug_enabled(&DebugSwitch::new(Some("1"))));
    assert!(!debug_enabled(&DebugSwitch::new(Some("0"))));
    assert!(!debug_enabled(&DebugSwitch::new(Some(""))));
}

fn text(s: &[char]) -> String {
    s.iter().collect()
}

#[test]
fn numbers_are_read_as_they_are_written() {
    let mut s = String::new();
    append_unsigned(&mut s, 0);
    append_signed(&mut s, -42);
    append_unsigned(&mut s, u64::MAX);
    assert_eq!(s, "0-4218446744073709551615");
    assert_eq!(parse_unsigned(&chars_of("10de"), 16, 0xffff_ffff), Some(0x10de));
    assert_eq!(parse_unsigned(&chars_of("+7"), 10, 10), Some(7));
    assert_eq!(parse_unsigned(&chars_of("11"), 10, 10), None);
    assert_eq!(parse_unsigned(&chars_of(""), 10, 10), None);
    assert_eq!(parse_signed32(&chars_of("-2147483648")), Some(i32::MIN));
    assert_eq!(parse_signed32(&chars_of("2147483648")), None);
}

#[test]
fn texts_are_cut_into_parts() {
    assert_eq!(text(trim(&chars_of(" \t a b \n"))), "a b");
    assert_eq!(text(strip_0x(&chars_of("0x0x10"))), "10");
    let parts: Vec<String> = split(&chars_of("a-b--c"), &['-']).iter().map(|p| text(p)).collect();
    assert_eq!(parts, vec!["a", "b", "", "c"]);
    let l: Vec<String> = lines(&chars_of("a\r\nb\n\nc")).iter().map(|p| text(p)).collect();
    assert_eq!(l, vec!["a", "b", "", "c"]);
    let line = chars_of("  one two");
    let (word, rest) = next_word(&line).unwrap();
    assert_eq!(text(word), "one");
    assert_eq!(text(next_word(rest).unwrap().0), "two");
    assert!(contains(&chars_of("abc"), &chars_of("bc")));
    assert!(!contains(&chars_of("abc"), &chars_of("cb")));
}
