use pixelflux::clock::{Duration, Instant};
use pixelflux::command::{
    clipboard_mimes, idle_wait, last_input_after, modifier_mask, reap, services_on_wake, Clipboard,
    Modifiers, ThreadCommand,
};
use pixelflux::encode_loop::GpuEncoder;
use pixelflux::session::CaptureBook;
use pixelflux::settings::{LiveTunables, RustCaptureSettings};
use pixelflux::wayland::{Compositor, Mode, OutputNode, PendingHostLayout, WlCapture, Window};
use std::collections::HashSet;

fn node(id: u32, capture: Option<WlCapture>) -> OutputNode {
    OutputNode {
        id,
        name: String::new(),
        pos: (id as i32 * 100, 0),
        mode: Some(Mode { w: 100, h: 50, refresh: 60_000 }),
        scale_micro: 1_000_000,
        capture,
        frame_buffer: Vec::new(),
        frame_seq: 0,
        target_seeded: false,
        content_hold_until: None,
    }
}

fn capture(fps_milli: u32) -> WlCapture {
    WlCapture::new(RustCaptureSettings { target_fps_milli: fps_milli, ..Default::default() }, Some(GpuEncoder::Nvenc), None)
}

fn compositor(nodes: Vec<OutputNode>) -> Compositor {
    Compositor {
        nodes,
        windows: vec![Window { id: 7, output: 0, parked: true, x: -500, y: 0 }],
        pending_windows: Vec::new(),
        host_layout_pending: Vec::new(),
        book: CaptureBook::new(),
        settings: RustCaptureSettings::default(),
        use_gpu: false,
        render_node_path: String::new(),
        auto_gpu_selected: false,
        host_outputs: None,
        render_cursor_on_framebuffer: false,
    }
}

#[test]
fn outputs_are_listed_with_their_geometry() {
    let mut c = compositor(vec![node(0, Some(capture(60_000))), node(3, None)]);
    c.nodes[1].mode = None;
    let l = c.list_outputs();
    assert_eq!((l[0].id, l[0].x, l[0].width, l[0].height, l[0].capturing), (0, 0, 100, 50, true));
    assert_eq!((l[1].id, l[1].x, l[1].width, l[1].height, l[1].capturing), (3, 300, 0, 0, false));
    assert_eq!(c.output_capacity(), -1);
    c.host_outputs = Some(2);
    assert_eq!(c.output_capacity(), 2);
}

#[test]
fn windows_move_to_known_outputs() {
    let mut c = compositor(vec![node(0, None), node(3, None)]);
    assert!(!c.move_window_to_output(8, 3));
    assert!(!c.move_window_to_output(7, 9));
    assert!(c.windows[0].parked);
    assert!(c.move_window_to_output(7, 3));
    let w = c.windows[0];
    assert_eq!((w.output, w.parked, w.x, w.y), (3, false, 300, 0));
}

/// A rate change reaches the capture, its encode thread and, on the primary, the settings.
#[test]
fn rates_change_where_they_are_asked_to() {
    let mut c = compositor(vec![node(0, Some(capture(60_000))), node(1, Some(capture(60_000)))]);
    let session = c.update_rate(0, Some(900), None, Some(30_000));
    assert!(matches!(session, Some(GpuEncoder::Nvenc)));
    let cap = c.nodes[0].capture.as_ref().unwrap();
    assert_eq!((cap.settings.video_bitrate_kbps, cap.settings.target_fps_milli), (900, 30_000));
    assert_eq!((cap.controls.bitrate_kbps, cap.controls.fps_milli, cap.controls.rate_dirty), (900, 30_000, true));
    assert_eq!((c.settings.video_bitrate_kbps, c.settings.target_fps_milli), (900, 30_000));
    c.update_rate(1, Some(77), Some(2000), Some(0));
    let cap = c.nodes[1].capture.as_ref().unwrap();
    assert_eq!((cap.settings.video_bitrate_kbps, cap.settings.video_vbv_multiplier_milli, cap.settings.target_fps_milli), (77, 2000, 60_000));
    assert_eq!(c.settings.video_bitrate_kbps, 900, "only the primary's rate is the compositor's");
    assert!(c.update_rate(9, Some(1), None, None).is_none());
    c.rate_failed(0);
    assert_eq!(c.nodes[0].capture.as_ref().unwrap().hw_error_streak, 29);
}

#[test]
fn tunables_change_where_they_are_asked_to() {
    let mut c = compositor(vec![node(0, Some(capture(60_000)))]);
    let mut t = LiveTunables::from_settings(&c.settings);
    t.video_crf = 44;
    t.capture_cursor = true;
    c.update_tunables(0, t);
    assert!(c.render_cursor_on_framebuffer);
    assert_eq!(c.settings.video_crf, 44);
    let cap = c.nodes[0].capture.as_ref().unwrap();
    assert_eq!(cap.settings.video_crf, 44);
    assert!(cap.controls.tunables_dirty && cap.controls.tunables.is_some());
}

#[test]
fn cursors_and_keyframes_mark_the_captures() {
    let mut c = compositor(vec![node(0, Some(capture(60_000))), node(1, None)]);
    c.nodes[0].capture.as_mut().unwrap().needs_full_render = false;
    assert!(!c.set_cursor_size(0));
    assert!(!c.nodes[0].capture.as_ref().unwrap().needs_full_render);
    assert!(c.set_cursor_size(24));
    assert!(c.nodes[0].capture.as_ref().unwrap().needs_full_render);
    c.request_idr(0);
    assert!(c.nodes[0].capture.as_ref().unwrap().pending_force_idr);
    c.request_idr(1);
    assert!(c.accept_screenshot(1).is_ok());
    assert_eq!(c.accept_screenshot(12), Err("Unknown display: 12".to_string()));
}

/// A read behind an unanswered layout request waits for it.
#[test]
fn geometry_reads_wait_for_the_host() {
    let mut c = compositor(vec![node(0, None)]);
    assert_eq!(c.read_geometry(0, 5), Some(c.realized_geometry(0)));
    c.host_layout_pending.push(PendingHostLayout { display_id: 0, epoch: 1, want: (1, 1), waiters: vec![] });
    assert_eq!(c.read_geometry(0, 5), None);
    assert_eq!(c.host_layout_pending[0].waiters, vec![5]);
}

/// The timer paces for the fastest capture and never sleeps less than a millisecond.
#[test]
fn the_timer_paces_for_the_fastest_capture() {
    let mut c = compositor(vec![node(0, Some(capture(30_000))), node(1, Some(capture(60_000)))]);
    let wait = |c: &Compositor, work_ms: u64| c.tick_wait(false, Duration::from_millis(work_ms)).nanos;
    assert_eq!(wait(&c, 0), 16_666_667);
    assert_eq!(wait(&c, 6), 10_666_667);
    assert_eq!(wait(&c, 100), 1_000_000);
    assert_eq!(c.tick_wait(true, Duration::from_millis(0)).nanos, 1_000_000);
    c.nodes.clear();
    c.settings.target_fps_milli = 0;
    assert_eq!(wait(&c, 0), 16_666_667, "sixty where nothing is set");
    c.settings.target_fps_milli = 5_000_000;
    assert_eq!(wait(&c, 0), 1_000_000);
    assert!(c.is_idle(false, false));
    assert!(!c.is_idle(true, false) && !c.is_idle(false, true));
    c.nodes.push(node(0, Some(capture(1000))));
    assert!(!c.is_idle(false, false));
}

fn at(ms: u64) -> Instant {
    Instant { nanos: 1_000_000_000_000 + ms * 1_000_000 }
}

/// Fresh input is served at once, but at frame pace at most.
#[test]
fn input_wakes_an_idle_session() {
    assert_eq!(idle_wait(false, None, at(0)), (Duration::from_millis(250), true));
    assert_eq!(idle_wait(true, None, at(0)), (Duration::from_millis(16), false));
    assert_eq!(idle_wait(false, Some(at(0)), at(999)), (Duration::from_millis(16), false));
    assert_eq!(idle_wait(false, Some(at(0)), at(1000)), (Duration::from_millis(250), true));
    assert!(services_on_wake(true, Some(at(0)), None, at(49)));
    assert!(!services_on_wake(false, Some(at(0)), None, at(49)));
    assert!(!services_on_wake(true, Some(at(0)), None, at(50)));
    assert!(!services_on_wake(true, None, None, at(0)));
    assert!(!services_on_wake(true, Some(at(20)), Some(at(10)), at(25)));
    assert!(services_on_wake(true, Some(at(20)), Some(at(10)), at(26)));
    assert_eq!(last_input_after(&[ThreadCommand::Barrier], Some(at(1)), at(9)), Some(at(1)));
    assert_eq!(last_input_after(&[ThreadCommand::ListOutputs, ThreadCommand::PointerAxis { x_milli: 0, y_milli: 1 }], None, at(9)), Some(at(9)));
}

#[test]
fn clipboards_offer_text_as_every_kind() {
    let mut c = Clipboard { current: Some("image/png".to_string()), pending_read: None };
    c.callback_armed();
    assert_eq!(c.pending_read.as_deref(), Some("image/png"));
    assert_eq!(
        c.offer("text/plain;charset=x".to_string()),
        vec!["text/plain;charset=utf-8", "UTF8_STRING", "text/plain", "STRING", "TEXT"]
    );
    assert!(c.current.is_none());
    assert_eq!(clipboard_mimes("image/png".to_string()), vec!["image/png"]);
}

#[test]
fn modifiers_are_one_bit_each() {
    let none = Modifiers {
        ctrl: false, shift: false, alt: false, logo: false,
        caps_lock: false, num_lock: false, iso_level3_shift: false, iso_level5_shift: false,
    };
    assert_eq!(modifier_mask(none), 0);
    assert_eq!(modifier_mask(Modifiers { ctrl: true, alt: true, ..none }), 5);
    assert_eq!(modifier_mask(Modifiers { shift: true, logo: true, caps_lock: true, num_lock: true, iso_level3_shift: true, iso_level5_shift: true, ..none }), 250);
}

#[test]
fn only_finished_threads_are_joined() {
    let mut waiting = vec![1, 2, 3, 4];
    let finished: HashSet<u64> = [1, 3, 9].into_iter().collect();
    let mut done = reap(&mut waiting, &finished);
    done.sort();
    waiting.sort();
    assert_eq!((done, waiting), (vec![1, 3], vec![2, 4]));
}
