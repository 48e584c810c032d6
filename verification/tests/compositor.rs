use pixelflux::clock::Instant;
use pixelflux::command::WindowNames;
use pixelflux::encode_loop::{BuildStep, GpuEncoder};
use pixelflux::recording_sink::RecordingSink;
use pixelflux::settings::RustCaptureSettings;
use pixelflux::start::EncodePath;
use pixelflux::wayland::{Compositor, Mode, WlCapture, Window};

fn settings() -> RustCaptureSettings {
    RustCaptureSettings { width: 64, height: 32, output_mode: 1, ..Default::default() }
}

fn compositor() -> Compositor {
    Compositor::new(640, 480, String::new(), false, false)
}

fn window(id: u32, output: u32) -> Window {
    Window { id, output, parked: false, x: 0, y: 0 }
}

fn start(c: &mut Compositor, id: u32) {
    let p = c.prepare_start(id, settings()).unwrap();
    let path = c.encode_path(&p.settings);
    c.start_capture_on_display(id, p, path, None, None, None, Instant { nanos: 1_000_000_000 });
}

/// The displays that count as alive are those that are captured.
fn in_order(c: &Compositor) -> bool {
    let captured: Vec<u32> = c.nodes.iter().filter(|n| n.capture.is_some()).map(|n| n.id).collect();
    captured.len() == c.book.alive.len()
        && captured.iter().all(|d| c.book.alive.contains(d))
        && c.windows.iter().all(|w| c.nodes.iter().any(|n| n.id == w.output))
}

#[test]
fn the_primary_comes_up_alone() {
    let c = Compositor::new(0, -5, "/dev/dri/renderD128".to_string(), true, true);
    assert_eq!(c.nodes.len(), 1);
    assert_eq!((c.nodes[0].id, c.nodes[0].name.as_str()), (0, "HEADLESS-1"));
    assert_eq!(c.nodes[0].mode, Some(Mode { w: 1024, h: 768, refresh: 60_000 }));
    assert_eq!(c.nodes[0].frame_buffer.len(), 1024 * 768 * 4);
    assert_eq!((c.settings.width, c.settings.height), (1024, 768));
    assert!(c.use_gpu && c.auto_gpu_selected && in_order(&c));
    assert!(!Compositor::new(64, 64, "/dev/dri/renderD128".to_string(), false, false).use_gpu);
    assert!(!Compositor::new(64, 64, String::new(), true, false).use_gpu);
}

/// Starting and stopping displays keeps the alive ones those that are captured.
#[test]
fn alive_displays_are_the_captured_ones() {
    let mut c = compositor();
    assert!(c.create_output_on(3, 64, 32, 640, 0, 1_000_000, true).is_ok());
    start(&mut c, 0);
    start(&mut c, 3);
    assert!(in_order(&c) && c.book.alive.len() == 2);
    c.stop_capture_on_display(0);
    assert!(in_order(&c) && c.book.alive.contains(&3));
    c.stop_capture_on_display(9);
    assert!(in_order(&c) && c.book.alive.len() == 1);
}

/// The windows of an output that goes move to the primary, and its capture ends.
#[test]
fn destroyed_outputs_leave_nothing_behind() {
    let mut c = compositor();
    assert!(c.create_output_on(3, 64, 32, 640, 0, 1_000_000, true).is_ok());
    c.windows = vec![window(1, 0), window(2, 3), window(4, 3)];
    start(&mut c, 3);
    let (capture, answer) = c.destroy_output_on(3, &[true, false], (-9000, 0)).unwrap();
    assert!(capture.is_some());
    assert_eq!(answer.display_id, 3);
    assert!(in_order(&c) && c.book.alive.is_empty());
    assert_eq!(c.nodes.len(), 1);
    assert_eq!(c.windows[1], Window { id: 2, output: 0, parked: true, x: -9000, y: 0 });
    assert_eq!(c.windows[2], Window { id: 4, output: 0, parked: false, x: 0, y: 0 });
    assert!(c.destroy_output_on(0, &[], (0, 0)).is_none(), "the primary stays");
}

/// A host that goes takes every capture with it, and says why.
#[test]
fn a_lost_host_ends_its_captures() {
    let mut c = compositor();
    c.host_outputs = Some(1);
    start(&mut c, 0);
    let (ended, _) = c.reap_dead_host(true);
    assert!(ended.is_empty() && in_order(&c));
    let (ended, _) = c.reap_dead_host(false);
    assert_eq!(ended.len(), 1);
    assert!(in_order(&c) && c.book.alive.is_empty() && c.host_outputs.is_none());
    assert_eq!(c.book.errors.get(&0).unwrap(), "host compositor connection lost; capture stopped");
}

#[test]
fn moved_windows_are_listed_on_their_output() {
    let mut c = compositor();
    assert!(c.create_output_on(3, 64, 32, 640, 0, 1_000_000, true).is_ok());
    c.windows = vec![window(1, 0)];
    assert!(c.move_window_to_output(1, 3) && in_order(&c));
    let names = vec![WindowNames { title: Some("Editor".to_string()), app_id: None }];
    let list = c.list_windows(&names);
    assert_eq!((list[0].id, list[0].output, list[0].parked), (1, 3, false));
    assert_eq!((list[0].title.as_str(), list[0].app_id.as_str()), ("Editor", ""));
    assert!(!c.move_window_to_output(1, 8) && !c.move_window_to_output(7, 0));
}

/// The session of the capture that is replaced is reused where its driver still fits.
#[test]
fn replaced_sessions_are_reused() {
    let path = EncodePath { cpu_explicit: false, gpu_intent: true, different_gpu: false, zero_copy: true };
    let prior = Some(WlCapture::new(settings(), Some(GpuEncoder::Nvenc), None));
    assert!(matches!(Compositor::zero_copy_step(&path, "nvidia", &prior), BuildStep::Reconfigure));
    assert!(matches!(Compositor::zero_copy_step(&path, "nvidia", &None), BuildStep::OpenNvenc));
    assert!(matches!(Compositor::zero_copy_step(&path, "i915", &prior), BuildStep::OpenVaapi));
    let readback = EncodePath { zero_copy: false, ..path };
    assert!(matches!(Compositor::zero_copy_step(&readback, "nvidia", &prior), BuildStep::Done(None)));
}

/// A frame rate beyond what a mode holds comes up at the largest refresh.
#[test]
fn refresh_rates_saturate() {
    let mut c = compositor();
    let fast = RustCaptureSettings { target_fps_milli: u32::MAX, ..settings() };
    c.commit_mode(0, fast.clone(), true);
    assert_eq!(c.nodes[0].mode, Some(Mode { w: 64, h: 32, refresh: i32::MAX }));
    assert!(!c.needs_mode_change(0, &fast));
}

/// A host's odd mode is followed once: H.264 asks for it rounded down, and that is not asked again.
#[test]
fn odd_host_modes_are_followed_once() {
    let mut c = compositor();
    c.host_outputs = Some(1);
    let at = Instant { nanos: 1_000_000_000 };
    let p = c.prepare_start(0, settings()).unwrap();
    let path = c.encode_path(&p.settings);
    c.start_capture_on_display(0, p, path, None, None, Some(1), at);
    let (_, restart) = c.settle_host_layout(0, false, Some((101, 51))).unwrap();
    let restart = restart.unwrap();
    assert_eq!(restart.caveat, "host kept 101x51 (64x32 declined)");
    let p = c.prepare_start(0, restart.settings).unwrap();
    assert_eq!((p.settings.width, p.settings.height), (100, 50));
    c.start_capture_on_display(0, p, path, None, None, Some(2), at);
    assert_eq!(c.host_layout_pending[0].want, (100, 50));
    let (_, again) = c.settle_host_layout(0, false, Some((101, 51))).unwrap();
    assert!(again.is_none());
}

/// What did not come up is told in the capture's own words.
#[test]
fn caveats_name_what_failed() {
    let mut c = compositor();
    c.host_connect_failed(0, "wayland-1", "refused");
    assert_eq!(
        c.book.errors.get(&0).unwrap(),
        "host compositor 'wayland-1' connect failed (refused); capturing locally"
    );
    c.encoder_init_failed(0, true, "no device");
    assert_eq!(c.book.errors.get(&0).unwrap(), "NVENC init failed (no device); using CPU encode");
    c.encoder_init_failed(0, false, "no device");
    assert_eq!(c.book.errors.get(&0).unwrap(), "VAAPI init failed (no device); using CPU encode");
}

/// A start fullscreens its display's windows at the logical size, but for those that are parked.
#[test]
fn starts_fullscreen_their_own_windows() {
    let mut c = compositor();
    c.windows = vec![window(1, 0), window(2, 3), Window { parked: true, ..window(4, 0) }, window(5, 0)];
    assert_eq!(c.windows_to_fullscreen(0), vec![1, 5]);
    let doubled = RustCaptureSettings { width: 1001, height: 600, scale_micro: 2_000_000, ..settings() };
    assert_eq!(Compositor::window_size(&doubled), (501, 300));
    let tiny = RustCaptureSettings { width: 100, height: 50, scale_micro: 1, ..settings() };
    assert_eq!(Compositor::window_size(&tiny), (1000, 500));
}

/// Only a zero-copy session takes the host's dmabufs.
#[test]
fn hosts_hand_over_what_the_consumer_takes() {
    let cursor = RustCaptureSettings { capture_cursor: true, ..settings() };
    let r = Compositor::host_request(&cursor, Some(GpuEncoder::Nvenc));
    assert_eq!((r.width, r.height, r.dmabuf, r.paint_cursor), (64, 32, true, true));
    assert!(!Compositor::host_request(&cursor, None).dmabuf);
    let sink = || RecordingSink::try_bind("/run/rec", 60_000);
    let jpeg = RustCaptureSettings { output_mode: 0, ..settings() };
    assert!(Compositor::warns_recording(&jpeg, &sink()));
    assert!(!Compositor::warns_recording(&settings(), &sink()));
    assert!(!Compositor::warns_recording(&jpeg, &None));
}
