use pixelflux::session::{
    choose_render_node, clear_captures, displays_to_sweep, fill_encode_index, initial_size,
    render_node_number, set_wayland_capture_err, want_wayland, wayland_capture_state, CaptureBackend,
    CaptureBook, Forward, Join, ScreenCapture, X11Controls,
};
use pixelflux::settings::RustCaptureSettings;

/// A live pipeline is running, with a caveat told alongside; a recorded failure without one is
/// failed; a clean stop is idle.
#[test]
fn state_tracks_liveness_and_recorded_error() {
    let mut book = CaptureBook::new();
    let did = 987_654;
    set_wayland_capture_err(&mut book, did, None);
    book.alive.remove(&did);
    assert_eq!(wayland_capture_state(&book, did), ("idle".to_string(), None));

    // Recorded failure, no live pipeline -> failed with the reason.
    set_wayland_capture_err(&mut book, did, Some("no output".to_string()));
    assert_eq!(
        wayland_capture_state(&book, did),
        ("failed".to_string(), Some("no output".to_string()))
    );

    // A live pipeline reads running even with a caveat still recorded.
    book.alive.insert(did);
    set_wayland_capture_err(&mut book, did, Some("using CPU encode".to_string()));
    assert_eq!(
        wayland_capture_state(&book, did),
        ("running".to_string(), Some("using CPU encode".to_string()))
    );

    // Clean stop clears both.
    book.alive.remove(&did);
    set_wayland_capture_err(&mut book, did, None);
    assert_eq!(wayland_capture_state(&book, did), ("idle".to_string(), None));
}

fn controls() -> X11Controls {
    X11Controls {
        stop: false,
        force_idr: false,
        rate_dirty: false,
        bitrate_kbps: 4000,
        fps_milli: 60_000,
        vbv_mult_milli: 0,
        capture_cursor: false,
        tunables_dirty: false,
        tunables: None,
        region_dirty: false,
        region: (0, 0, 0, 0),
    }
}

/// Only the handle that owns a display stops its capture.
#[test]
fn stale_handles_stop_nothing() {
    let mut book = CaptureBook::new();
    let mut first = ScreenCapture::new(1);
    let mut second = ScreenCapture::new(2);
    first.started_wayland(&mut book, 5);
    second.started_wayland(&mut book, 5);
    assert!(book.owners.get(&5) == Some(&2));
    let plan = first.stop_internal(&mut book, 0, None);
    assert_eq!(plan.stop_display, None);
    let plan = second.stop_internal(&mut book, 0, None);
    assert_eq!(plan.stop_display, Some(5));
    assert!(book.owners.get(&5).is_none());
    assert!(matches!(second.backend, CaptureBackend::Idle));
}

/// A stop from a thread of the capture itself must not wait for that thread.
#[test]
fn a_capture_never_joins_itself() {
    let mut book = CaptureBook::new();
    let mut c = ScreenCapture::new(1);
    c.started_x11(controls(), Some(10), Some(11), 12);
    let plan = c.stop_internal(&mut book, 12, None);
    assert!(matches!(plan.join, Join::Detach));
    assert!(plan.controls.unwrap().stop);
    let mut d = ScreenCapture::new(2);
    d.started_x11(controls(), Some(10), Some(11), 12);
    let plan = d.stop_internal(&mut book, 99, None);
    assert!(matches!(plan.join, Join::Wait));
    let mut w = ScreenCapture::new(3);
    w.started_wayland(&mut book, 1);
    assert!(matches!(w.stop_internal(&mut book, 99, None).join, Join::Never), "the compositor's threads");
}

#[test]
fn updates_go_where_the_capture_runs() {
    let mut book = CaptureBook::new();
    let mut x = ScreenCapture::new(1);
    assert!(matches!(x.request_idr_frame(), Forward::Nowhere));
    x.started_x11(controls(), None, None, 3);
    assert!(matches!(x.request_idr_frame(), Forward::Nowhere));
    assert!(x.controls.as_ref().unwrap().force_idr);
    x.update_video_bitrate(900);
    x.update_framerate(30_000);
    x.update_vbv_multiplier(1500);
    let k = x.controls.as_ref().unwrap();
    assert_eq!((k.bitrate_kbps, k.fps_milli, k.vbv_mult_milli, k.rate_dirty), (900, 30_000, 1500, true));
    assert!(x.update_capture_region(1, 2, 640, 480));
    assert_eq!(x.controls.as_ref().unwrap().region, (1, 2, 640, 480));
    x.update_tunables(&RustCaptureSettings::default());
    assert!(x.controls.as_ref().unwrap().tunables_dirty);

    let mut w = ScreenCapture::new(2);
    w.started_wayland(&mut book, 4);
    assert!(matches!(w.request_idr_frame(), Forward::Display(4)));
    assert!(matches!(w.update_video_bitrate(900), Forward::Display(4)));
    book.alive.insert(4);
    assert!(w.is_capturing(&book));
    assert!(w.live_wayland_restart(&book, true, 4));
    assert!(!w.live_wayland_restart(&book, true, 5));
    assert!(!w.live_wayland_restart(&book, false, 4));
}

#[test]
fn encode_nodes_are_counted_from_128() {
    assert_eq!(render_node_number("/dev/dri/renderD129"), Some(129));
    assert_eq!(render_node_number("/dev/dri/card0"), None);
    assert_eq!(fill_encode_index(-2, Some("/dev/dri/renderD130")), 2);
    assert_eq!(fill_encode_index(-1, Some("/dev/dri/renderD130")), -1);
    assert_eq!(fill_encode_index(-2, None), -2);
}

#[test]
fn explicit_choices_come_first() {
    assert!(want_wayland(Some(true), None));
    assert!(!want_wayland(Some(false), Some("wayland-1")));
    assert_eq!(
        choose_render_node("/dev/dri/renderD1".to_string(), Some("/dev/dri/renderD2".to_string()), String::new()),
        ("/dev/dri/renderD1".to_string(), false)
    );
    assert_eq!(
        choose_render_node(String::new(), Some("/dev/dri/renderD2".to_string()), String::new()),
        ("/dev/dri/renderD2".to_string(), true)
    );
    assert_eq!(choose_render_node(String::new(), None, "x".to_string()), ("x".to_string(), false));
    assert_eq!(initial_size(640, 480), (640, 480));
}

#[test]
fn ending_the_process_sweeps_every_display() {
    let mut swept = displays_to_sweep(vec![3, 1]);
    swept.sort();
    assert!(swept.contains(&1) && swept.contains(&3));
    let mut book = CaptureBook::new();
    book.alive.insert(1);
    set_wayland_capture_err(&mut book, 1, Some("x".to_string()));
    book.owners.insert(1, 9);
    clear_captures(&mut book);
    assert!(book.alive.is_empty() && book.owners.is_empty());
    assert!(!book.release(1, 9));
}

/// A start stops what runs, but not a live capture of the same display.
#[test]
fn live_captures_are_reconfigured_in_place() {
    let mut book = CaptureBook::new();
    let mut c = ScreenCapture::new(1);
    assert!(c.start_capture(&mut book, true, 4, 0, None).is_some());
    c.started_wayland(&mut book, 4);
    book.alive.insert(4);
    assert!(c.start_capture(&mut book, true, 4, 0, None).is_none());
    assert!(c.is_capturing(&book));
    let plan = c.start_capture(&mut book, true, 5, 0, None).unwrap();
    assert_eq!(plan.stop_display, Some(4));
    assert!(!c.is_capturing(&book));
}

/// A capture tells what it does by the backend that runs it.
#[test]
fn captures_tell_their_state() {
    let mut book = CaptureBook::new();
    let mut c = ScreenCapture::new(1);
    assert_eq!(c.capture_state(&book, 0), ("idle".to_string(), None));
    c.started_x11(controls(), Some(1), None, 2);
    assert_eq!(c.capture_state(&book, 0), ("running".to_string(), None));
    c.controls.as_mut().unwrap().stop = true;
    c.err = Some("lost the display".to_string());
    assert_eq!(c.capture_state(&book, 0), ("failed".to_string(), Some("lost the display".to_string())));
    c.backend = CaptureBackend::Wayland;
    assert_eq!(c.capture_state(&book, 0), ("idle".to_string(), None));
    book.alive.insert(0);
    assert_eq!(c.capture_state(&book, 0), ("running".to_string(), None));
}
