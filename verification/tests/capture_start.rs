use pixelflux::clock::Instant;
use pixelflux::encode_loop::{GpuEncoder, Recovery};
use pixelflux::encoders::{EncodedStripe, FrameTiming, HW_ERROR_RECOVERY_THRESHOLD};
use pixelflux::pool::{Rect, Taken, WlFramePool};
use pixelflux::render::{
    begin_tick, cancel_slot, gpu_render_age, host_wakes, host_yields, host_watermark, is_stale, is_too_soon,
    presented, publish_frame, recover_host_frame, rendered_gpu, rendered_software, retained_outcome,
    screenshot_is_rgba, screenshot_pixels, service_copy_frames, software_render_age, CopySession, Gate, Handed, HostFrame,
    HostRecovery, Retained, Watermark,
};
use pixelflux::session::CaptureBook;
use pixelflux::settings::RustCaptureSettings;
use pixelflux::start::{bootstrap_readback_pool, readback_tries_gpu};
use pixelflux::wayland::{Compositor, Mode, OutputNode, WlCapture};

fn settings() -> RustCaptureSettings {
    RustCaptureSettings { width: 64, height: 32, output_mode: 1, video_fullframe: true, ..Default::default() }
}

fn node(id: u32) -> OutputNode {
    OutputNode {
        id,
        name: String::new(),
        pos: (0, 0),
        mode: Some(Mode { w: 64, h: 32, refresh: 60_000 }),
        scale_micro: 1_000_000,
        capture: None,
        frame_buffer: Vec::new(),
        frame_seq: 0,
        target_seeded: false,
        content_hold_until: None,
    }
}

fn compositor() -> Compositor {
    Compositor {
        nodes: vec![node(0)],
        windows: Vec::new(),
        pending_windows: Vec::new(),
        host_layout_pending: Vec::new(),
        book: CaptureBook::new(),
        settings: RustCaptureSettings::default(),
        use_gpu: true,
        render_node_path: "/dev/dri/renderD128".to_string(),
        auto_gpu_selected: false,
        host_outputs: None,
        render_cursor_on_framebuffer: false,
    }
}

fn at(ms: u64) -> Instant {
    Instant { nanos: 1_000_000_000_000 + ms * 1_000_000 }
}

/// A start on an unknown display is told, one on a known display runs.
#[test]
fn captures_start_on_known_displays() {
    let mut c = compositor();
    assert!(c.prepare_start(4, settings()).is_none());
    assert!(c.book.errors.get(&4).unwrap().contains("no output with display id 4"));
    let p = c.prepare_start(0, settings()).unwrap();
    let path = c.encode_path(&p.settings);
    assert!(path.gpu_intent && path.zero_copy && !path.different_gpu);
    let (readback, answer) = c.start_capture_on_display(0, p, path, None, None, None, at(0));
    let r = readback.unwrap();
    assert_eq!(r.buf_len, 64 * 32 * 4);
    assert_eq!(answer.display_id, 0);
    assert!(c.book.alive.contains(&0));
    assert!(c.nodes[0].capture.as_ref().unwrap().readback);
}

#[test]
fn zero_copy_needs_the_gpu_that_renders() {
    let mut c = compositor();
    let other = RustCaptureSettings { encode_node_index: 1, ..settings() };
    let path = c.encode_path(&other);
    assert!(path.different_gpu && !path.zero_copy);
    let cpu = RustCaptureSettings { use_cpu: true, ..settings() };
    let path = c.encode_path(&cpu);
    assert!(path.cpu_explicit && !path.gpu_intent);
    c.use_gpu = false;
    assert!(!c.encode_path(&settings()).zero_copy);
    assert!(!readback_tries_gpu(&cpu));
    let p = c.prepare_start(0, settings()).unwrap();
    let path = c.encode_path(&p.settings);
    let (readback, _) = c.start_capture_on_display(0, p, path, Some(GpuEncoder::Nvenc), None, None, at(0));
    assert!(readback.is_none(), "a zero-copy session needs no readback");
}

/// An output that cannot be resized keeps its mode, and the capture follows it.
#[test]
fn refused_modes_are_kept() {
    let mut c = compositor();
    let bigger = RustCaptureSettings { width: 128, height: 64, ..settings() };
    assert!(c.needs_mode_change(0, &bigger));
    let kept = c.commit_mode(0, bigger.clone(), false);
    assert_eq!((kept.width, kept.height), (64, 32));
    assert_eq!(c.book.errors.get(&0).unwrap(), "GPU buffer resize to 128x64 refused; kept 64x32");
    let taken = c.commit_mode(0, bigger, true);
    assert_eq!((taken.width, taken.height), (128, 64));
    assert_eq!(c.nodes[0].mode, Some(Mode { w: 128, h: 64, refresh: 60_000 }));
    assert_eq!(c.nodes[0].frame_buffer.len(), 128 * 64 * 4);
}

fn captured() -> OutputNode {
    let mut n = node(0);
    let mut cap = WlCapture::new(settings(), None, None);
    bootstrap_readback_pool(&mut cap);
    n.capture = Some(cap);
    n
}

/// A tick waits for its capture's rate and for a free buffer.
#[test]
fn ticks_are_gated() {
    let mut n = node(0);
    let mut pool = Some(WlFramePool::new(2, 64 * 32 * 4));
    assert!(matches!(begin_tick(&mut n, &mut pool, false, false, false, true, at(0)), Gate::Idle));
    let mut n = captured();
    let slot = match begin_tick(&mut n, &mut pool, false, false, false, true, at(0)) {
        Gate::Run(t) => {
            assert_eq!((t.width, t.height, t.needs_full), (64, 32, true));
            t.slot.unwrap()
        }
        _ => panic!("the first tick runs"),
    };
    assert!(matches!(begin_tick(&mut n, &mut pool, false, false, false, true, at(10)), Gate::Idle), "too soon");
    let cap = n.capture.as_mut().unwrap();
    publish_frame(cap, pool.as_mut().unwrap(), slot, vec![], false);
    assert!(matches!(begin_tick(&mut n, &mut pool, false, false, false, true, at(20)), Gate::Busy));
    assert!(matches!(pool.as_mut().unwrap().take(), Taken::Frame(_)));
    match begin_tick(&mut n, &mut pool, false, false, false, true, at(40)) {
        Gate::Run(t) => cancel_slot(&mut pool, t.slot),
        _ => panic!("the slot is free again"),
    }
    assert_eq!(pool.as_ref().unwrap().free.len(), 1);
    assert!(is_too_soon(Some(at(0)), 60_000, at(14)));
    assert!(!is_too_soon(Some(at(0)), 60_000, at(15)));
    assert!(!is_too_soon(None, 60_000, at(0)));
}

/// A buffer is as old as the renders since it was last drawn.
#[test]
fn buffers_age_with_the_renders() {
    let n = captured();
    let mut cap = n.capture;
    assert_eq!(software_render_age(&cap, Some(0), false, false), 0, "never drawn");
    rendered_software(cap.as_mut().unwrap(), true, Some(0));
    assert_eq!(software_render_age(&cap, Some(0), false, false), 1);
    assert_eq!(software_render_age(&cap, Some(1), false, false), 0);
    rendered_software(cap.as_mut().unwrap(), true, Some(1));
    assert_eq!(software_render_age(&cap, Some(0), false, false), 2);
    assert_eq!(software_render_age(&cap, Some(0), false, true), 0, "the whole output is drawn");
    assert_eq!((gpu_render_age(true, false), gpu_render_age(false, true)), (0, 0));
    assert_eq!(gpu_render_age(false, false), 1);
    let c = cap.as_mut().unwrap();
    assert!(rendered_gpu(c, true, true, Some(0)), "new content is read back");
    assert!(!rendered_gpu(c, true, false, Some(0)), "the buffer holds it already");
    assert!(rendered_gpu(c, true, false, Some(1)));
}

fn timing() -> FrameTiming {
    FrameTiming { capture_ns: 0, encode_start_ns: 0, encode_end_ns: 0 }
}

/// A parked frame goes out before anything new is encoded, and its damage is not forgotten.
#[test]
fn parked_frames_go_first() {
    let mut cap = WlCapture::new(settings(), Some(GpuEncoder::Nvenc), None);
    let d = cap.zero_copy_tick(Handed::Gone, true, false, true).unwrap();
    assert!(d.send && d.force_idr);
    let (out, _) = cap.zero_copy_done(Some(Ok(vec![5])), true, timing());
    assert_eq!(out.len(), 1);
    assert!(!cap.pending_force_idr);
    cap.park(out);
    let parked: Vec<EncodedStripe> = cap.take_parked().unwrap();
    assert!(cap.zero_copy_tick(Handed::Full(parked), true, false, false).is_none());
    assert!(cap.pending_hw_damage);
    assert!(cap.take_parked().is_some());
    let d = cap.zero_copy_tick(Handed::Gone, false, false, false).unwrap();
    assert!(d.send, "the damage that came meanwhile is sent");
    assert!(!cap.pending_hw_damage);
}

#[test]
fn failing_zero_copy_sessions_are_replaced() {
    let mut cap = WlCapture::new(settings(), Some(GpuEncoder::Nvenc), None);
    let mut last = Recovery::Keep;
    for _ in 0..HW_ERROR_RECOVERY_THRESHOLD {
        last = cap.zero_copy_done(Some(Err(())), true, timing()).1;
    }
    assert!(matches!(last, Recovery::Rebuild));
    assert!(cap.pending_force_idr, "the request stays armed");
    assert!(cap.zero_copy_recover(Some(GpuEncoder::Nvenc)).is_none());
    let (_, buf_len) = cap.zero_copy_recover(None).unwrap();
    assert_eq!(buf_len, Some(64 * 32 * 4));
    assert!(cap.session.is_none() && cap.readback);
}

#[test]
fn host_frames_that_do_not_fit_the_path_are_recovered() {
    assert!(matches!(retained_outcome(None, true), Retained::Missing));
    assert!(matches!(retained_outcome(Some(HostFrame::Cpu), true), Retained::CpuFrame));
    assert!(matches!(retained_outcome(Some(HostFrame::Gpu), false), Retained::GpuFrame));
    assert!(matches!(retained_outcome(Some(HostFrame::Gpu), true), Retained::Used));
    let mut none = None;
    assert!(matches!(recover_host_frame(&mut none, Retained::Used), HostRecovery::Nothing));
    let mut cap = Some(WlCapture::new(settings(), Some(GpuEncoder::Nvenc), None));
    assert!(matches!(recover_host_frame(&mut cap, Retained::CpuFrame), HostRecovery::Demote { .. }));
    assert!(cap.unwrap().session.is_none());
    assert!(is_stale(Some((10, 10)), 10, 11) && !is_stale(None, 10, 11));
    assert!(host_wakes(false, true, false, false, false) && !host_wakes(false, false, false, false, false));
    assert!(matches!(host_watermark(false, true, true, true), Watermark::Nothing));
}

/// A client that copies the output gets its first frame at once and then only on damage.
#[test]
fn copies_are_served_on_damage() {
    let session = |output, pending, once| CopySession { output, pending, delivered_once: once };
    let sessions = vec![session(Some(0), true, false), session(Some(0), true, true), session(Some(1), true, false), session(Some(0), false, false)];
    assert_eq!(service_copy_frames(&sessions, 0, &[]), vec![0]);
    assert_eq!(service_copy_frames(&sessions, 0, &[Rect { x: 0, y: 0, w: 1, h: 1 }]), vec![0, 1]);
    let mut s = session(Some(0), true, false);
    s.copied(true);
    assert!(!s.pending && s.delivered_once);
    assert!(screenshot_is_rgba(true, false) && !screenshot_is_rgba(true, true) && !screenshot_is_rgba(false, false));
    let mut n = node(0);
    presented(&mut n);
    assert_eq!(n.frame_seq, 1);
}

/// An encode thread that ended on its own gets a successor, and the stream a keyframe.
#[test]
fn dead_encode_threads_are_replaced() {
    let mut cap = captured().capture.unwrap();
    cap.controls.force_idr = false;
    cap.content_gen = 9;
    let (try_gpu, buf_len) = cap.encode_thread_died();
    assert!(try_gpu);
    assert_eq!(buf_len, Some(64 * 32 * 4));
    assert!(cap.readback && cap.controls.force_idr);
    assert_eq!(cap.content_gen, 0);
    cap.delivers = false;
    assert_eq!(cap.encode_thread_died().1, None);
    assert!(!cap.readback && cap.pending_force_idr);
}

#[test]
fn screenshots_come_in_image_order() {
    assert_eq!(screenshot_pixels(&vec![1, 2, 3, 4], true), Ok(vec![1, 2, 3, 4]));
    assert_eq!(screenshot_pixels(&vec![1, 2, 3, 4], false), Ok(vec![3, 2, 1, 4]));
    assert_eq!(screenshot_pixels(&vec![], true), Err("Screenshot render produced no pixels".to_string()));
}

/// With a host connected, only a display that one of its outputs backs yields frames.
#[test]
fn unbacked_displays_yield_nothing() {
    assert!(host_yields(false, false) && host_yields(true, true));
    assert!(!host_yields(true, false));
}
