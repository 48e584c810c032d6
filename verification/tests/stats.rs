use pixelflux::settings::RustCaptureSettings;
use pixelflux::stats::{log_due, Memory, WlEncodeStats};

/// Counts tell what was sent since they were last taken.
#[test]
fn counts_start_over_when_taken() {
    let mut s = WlEncodeStats::new();
    assert_eq!((s.n_stripes, s.desc.as_str()), (1, ""));
    s.count(3);
    s.count(0);
    s.count(4);
    assert_eq!(s.take(), (2, 7));
    assert_eq!(s.take(), (0, 0));
    s.stripes = u32::MAX;
    s.count(2);
    assert_eq!(s.take(), (1, 1));
}

#[test]
fn debug_lines_tell_the_capture() {
    let mut s = WlEncodeStats::new();
    s.describe(4, "JPEG Q:75".to_string());
    let memory = Memory { rss: 3 * 1024 * 1024 + 5, shm: 1024 * 1024 - 1 };
    let mut settings = RustCaptureSettings { width: 640, height: 480, ..Default::default() };
    assert!(s.line(2, &settings, "59.97", "239.88", memory).is_none());
    settings.debug_logging = true;
    assert_eq!(
        s.line(2, &settings, "59.97", "239.88", memory).unwrap(),
        "Display: 2 Res: 640x480 Mode: JPEG Q:75 Stripes: 4 EncFPS: 59.97 EncStripes/s: 239.88 Mem: 3MB SHM: 0MB"
    );
    assert!(!log_due(999_999_999) && log_due(1_000_000_000));
}
