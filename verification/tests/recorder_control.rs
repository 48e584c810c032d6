use pixelflux::command::OutputDesc;
use pixelflux::encoders::{Codec, EncodedStripe, FrameTiming};
use pixelflux::recorder::control::{
    autostart_from_env, autostart_gave_up, autostart_ready, capture_never_started, finalize_on_exit,
    fit_to_output, outcome, own_capture_settings, start, status, stop, Offer, PreferredBackend,
    RecShared, RecordEnv, RecordOptions, Recorder, RecordingMode, Sent, Teardown,
};
use pixelflux::recorder::muxer::{close, Muxed, Muxer};
use pixelflux::session::CaptureBook;
use pixelflux::settings::RustCaptureSettings;

fn empty_env() -> RecordEnv {
    RecordEnv { display: None, fps_milli: None, bitrate_kbps: None, keyframe_interval_ms: None, backend: None }
}

fn opts() -> RecordOptions {
    RecordOptions::from_env("/tmp/a.mp4".to_string(), &empty_env())
}

fn frame(data: Vec<u8>) -> EncodedStripe {
    EncodedStripe {
        data,
        data_type: 2,
        codec: Codec::H264,
        stripe_y_start: 0,
        stripe_height: 64,
        frame_id: 0,
        timing: FrameTiming { capture_ns: 0, encode_start_ns: 0, encode_end_ns: 0 },
    }
}

#[test]
fn options_come_from_the_environment() {
    let o = RecordOptions::from_env("p".to_string(), &RecordEnv {
        display: Some(3),
        fps_milli: Some(25_000),
        bitrate_kbps: Some(800),
        keyframe_interval_ms: Some(500),
        backend: Some("wayland".to_string()),
    });
    assert_eq!((o.display_id, o.fps_milli, o.bitrate_kbps, o.keyframe_interval_ms), (3, 25_000, 800, 500));
    assert_eq!(o.backend, Some(PreferredBackend::Wayland));
    let d = opts();
    assert_eq!((d.effective_fps(), d.effective_keyframe_ms()), (30_000, 2000));
    let x = RecordOptions::from_env("p".to_string(), &RecordEnv { backend: Some("x11".to_string()), ..empty_env() });
    assert_eq!(x.backend, Some(PreferredBackend::X11));
    let other = RecordOptions::from_env("p".to_string(), &RecordEnv { backend: Some("X11".to_string()), ..empty_env() });
    assert_eq!(other.backend, None);
}

#[test]
fn explicit_settings_take_over() {
    let mut o = opts();
    o.fps_milli = 10_000;
    let h264 = RustCaptureSettings { output_mode: 1, ..Default::default() };
    let o = o.with_settings(h264, 4, Some(false)).ok().unwrap();
    assert_eq!((o.display_id, o.fps_milli), (4, 0));
    assert_eq!(o.backend, Some(PreferredBackend::X11));
    let e = opts().with_settings(RustCaptureSettings::default(), 0, None).err().unwrap();
    assert!(e.contains("H.264"));
}

/// A recorder-owned capture always has the one shape that can be recorded.
#[test]
fn own_captures_are_full_frame_h264() {
    let s = own_capture_settings(&opts()).unwrap();
    assert_eq!((s.width, s.height, s.output_mode), (0, 0, 1));
    assert!(s.video_fullframe && s.capture_cursor);
    assert_eq!((s.target_fps_milli, s.keyframe_interval_ms, s.video_bitrate_kbps), (30_000, 2000, 4000));
    let mut o = opts();
    o.fps_milli = 15_000;
    o.bitrate_kbps = 700;
    o.capture = Some(RustCaptureSettings {
        output_mode: 1,
        recording_socket: "/tmp/s".to_string(),
        keyframe_interval_ms: 100,
        ..Default::default()
    });
    let s = own_capture_settings(&o).unwrap();
    assert_eq!((s.target_fps_milli, s.keyframe_interval_ms, s.video_bitrate_kbps), (15_000, 100, 700));
    assert!(s.recording_socket.is_empty() && s.video_fullframe);
    o.capture = Some(RustCaptureSettings::default());
    assert!(own_capture_settings(&o).is_err());
}

/// Each refusal is told in its own words.
#[test]
fn starts_are_refused_for_a_reason() {
    let mut rec = Recorder::new();
    assert_eq!(start(&rec, &opts(), true, true), Ok(PreferredBackend::Wayland));
    assert_eq!(start(&rec, &opts(), false, true), Ok(PreferredBackend::X11));
    assert_eq!(
        start(&rec, &opts(), false, false),
        Err("no capture backend available: no in-process Wayland compositor and DISPLAY is unset".to_string())
    );
    let mut wl = opts();
    wl.backend = Some(PreferredBackend::Wayland);
    assert_eq!(start(&rec, &wl, false, true), Err("no Wayland compositor is running in this process".to_string()));
    let mut x = opts();
    x.backend = Some(PreferredBackend::X11);
    assert_eq!(start(&rec, &x, true, false), Ok(PreferredBackend::X11));
    let mut nowhere = opts();
    nowhere.path = String::new();
    assert_eq!(start(&rec, &nowhere, true, true), Err("recording path is empty".to_string()));
    let mut jpeg = opts();
    jpeg.capture = Some(RustCaptureSettings::default());
    assert!(start(&rec, &jpeg, true, true).unwrap_err().contains("JPEG cannot be recorded"));
    rec.started("p".to_string(), RecordingMode::X11Own);
    assert_eq!(start(&rec, &opts(), true, true), Err("a recording is already active".to_string()));
}

#[test]
fn sizes_come_from_the_output() {
    let out = |id, w, h| OutputDesc { id, x: 0, y: 0, width: w, height: h, scale_micro: 1_500_000, capturing: false };
    let outputs = [out(0, 10, 10), out(2, 800, 600)];
    let mut s = RustCaptureSettings { width: 0, height: 0, ..Default::default() };
    fit_to_output(&mut s, 2, &outputs).unwrap();
    assert_eq!((s.width, s.height, s.scale_micro), (800, 600, 1_500_000));
    let mut fixed = RustCaptureSettings { width: 5, height: 6, ..Default::default() };
    fit_to_output(&mut fixed, 9, &outputs).unwrap();
    assert_eq!((fixed.width, fixed.height), (5, 6));
    let mut none = RustCaptureSettings { width: 0, height: 0, ..Default::default() };
    assert_eq!(fit_to_output(&mut none, 9, &outputs), Err("no wayland output with display id 9".to_string()));
    assert_eq!(capture_never_started(9), "wayland capture on display 9 failed to start");
}

/// Only a single full-frame H.264 stripe is taken; anything else is counted.
#[test]
fn only_whole_h264_frames_are_taken() {
    let mut s = RecShared::new();
    assert_eq!(s.offer_frame(&[], 64), Offer::Nothing);
    assert_eq!(s.offer_frame(&[frame(vec![0, 0, 0, 1])], 64), Offer::Frame(0));
    let mut wire = vec![4u8; 12];
    wire[10] = 0;
    assert_eq!(s.offer_frame(&[frame(wire)], 64), Offer::Frame(10));
    assert_eq!(s.offer_frame(&[frame(vec![])], 64), Offer::Nothing);
    assert_eq!(s.offer_frame(&[frame(vec![4u8; 10])], 64), Offer::Nothing, "a header without a payload");
    assert_eq!(s.skipped_non_h264, 0);
    let mut low = frame(vec![1]);
    low.stripe_y_start = 16;
    let mut jpeg = frame(vec![1]);
    jpeg.data_type = 1;
    assert_eq!(s.offer_frame(&[low], 64), Offer::Skipped);
    assert_eq!(s.offer_frame(&[jpeg], 64), Offer::Skipped);
    assert_eq!(s.offer_frame(&[frame(vec![1]), frame(vec![1])], 64), Offer::Skipped);
    assert_eq!(s.skipped_non_h264, 3);
    assert_eq!(s.offer_frame(&[frame(vec![1])], 128), Offer::Skipped, "the top stripe of a taller frame");
    let mut other = frame(vec![1]);
    other.codec = Codec::H265;
    assert_eq!(s.offer_frame(&[other], 64), Offer::Skipped, "a stream of another codec");
    assert_eq!(s.skipped_non_h264, 5);
    s.frame_sent(Sent::Queued);
    s.frame_sent(Sent::Full);
    s.frame_sent(Sent::Closed);
    assert_eq!((s.enqueued, s.dropped), (1, 1));
}

/// One keyframe is asked for per interval.
#[test]
fn keyframes_are_asked_for_at_their_pace() {
    let mut s = RecShared::new();
    assert!(!s.pace_idr_requests(0, 10_000_000));
    assert!(!s.pace_idr_requests(2_000_000, 1_999_999));
    assert!(s.pace_idr_requests(2_000_000, 2_000_000));
    assert!(!s.pace_idr_requests(2_000_000, 3_999_999));
    assert!(s.pace_idr_requests(2_000_000, 4_000_000));
}

#[test]
fn the_first_error_stays() {
    let mut s = RecShared::new();
    assert!(s.set_error("a".to_string()));
    assert!(!s.set_error("b".to_string()));
    assert_eq!(s.error.as_deref(), Some("a"));
}

/// A tap takes the frames of its display only, and asks for keyframes only where it is attached.
#[test]
fn taps_follow_one_display() {
    let mut rec = Recorder::new();
    let f = [frame(vec![0, 0, 0, 1])];
    assert_eq!(rec.wayland_tap(1, &f, 64, 9_000_000), (Offer::Nothing, false));
    let mut o = opts();
    o.display_id = 1;
    rec.attach(&o);
    assert_eq!(rec.wayland_tap(2, &f, 64, 9_000_000), (Offer::Nothing, false));
    assert_eq!(rec.wayland_tap(1, &f, 64, 1_000_000), (Offer::Frame(0), false));
    assert_eq!(rec.wayland_tap(1, &f, 64, 2_000_000), (Offer::Frame(0), true));
    rec.tap_own(1);
    assert_eq!(rec.wayland_tap(1, &f, 64, 9_000_000), (Offer::Frame(0), false));
    rec.disarm_tap();
    assert_eq!(rec.wayland_tap(1, &f, 64, 9_000_000), (Offer::Nothing, false));
}

/// A stop tears its own capture down, but not one that a client has taken since.
#[test]
fn stops_leave_owned_displays_alone() {
    let mut book = CaptureBook::new();
    let mut rec = Recorder::new();
    assert_eq!(stop(&mut rec, &book).err().unwrap(), "no recording is active");
    let mode = rec.tap_own(6);
    let first = rec.started("p".to_string(), mode);
    assert!(first.active);
    assert_eq!((first.backend, first.mode), ("wayland", "own-capture"));
    let (a, t) = stop(&mut rec, &book).ok().unwrap();
    assert_eq!((a.path.as_str(), t), ("p", Teardown::Wayland(6)));
    assert!(rec.active.is_none() && rec.tap.is_none());
    book.owners.insert(6, 1);
    let mode = rec.tap_own(6);
    rec.started("p".to_string(), mode);
    assert_eq!(stop(&mut rec, &book).ok().unwrap().1, Teardown::Nothing);
    rec.started("p".to_string(), RecordingMode::X11Own);
    assert_eq!(finalize_on_exit(&mut rec, &book).unwrap().1, Teardown::X11);
    assert!(finalize_on_exit(&mut rec, &book).is_none());
}

#[test]
fn autostarts_run_once_and_wait_for_their_backend() {
    let mut started = false;
    assert!(!autostart_from_env(None, &mut started));
    assert!(!autostart_from_env(Some(""), &mut started));
    assert!(autostart_from_env(Some("/tmp/a.mp4"), &mut started));
    assert!(!autostart_from_env(Some("/tmp/a.mp4"), &mut started));
    assert!(autostart_ready(None, false, true));
    assert!(!autostart_ready(None, false, false));
    assert!(!autostart_ready(Some(PreferredBackend::X11), true, false));
    assert!(autostart_ready(Some(PreferredBackend::Wayland), true, false));
    assert_eq!(autostart_gave_up(""), "[recorder] PIXELFLUX_RECORD autostart gave up: no capture backend appeared");
    assert_eq!(autostart_gave_up("x"), "[recorder] PIXELFLUX_RECORD autostart gave up: x");
}

fn hex(s: &str) -> Vec<u8> {
    (0..s.len()).step_by(2).map(|i| u8::from_str_radix(&s[i..i + 2], 16).unwrap()).collect()
}

fn keyframe() -> Vec<u8> {
    let mut au = vec![0, 0, 0, 1];
    au.extend_from_slice(&hex("6742c01ed900a02ff970110000030001000003003c0f162e48"));
    au.extend_from_slice(&[0, 0, 0, 1, 0x68, 0xCE, 0x38, 0x80, 0, 0, 0, 1, 0x65, 1, 2, 3, 4]);
    au
}

/// Output starts at the first keyframe with parameter sets, and the status tells what was written.
#[test]
fn recordings_start_at_a_keyframe() {
    let mut shared = RecShared::new();
    let mut m = Muxer::new();
    let delta = [0u8, 0, 0, 1, 0x41, 5, 6];
    assert!(matches!(m.mux(&mut shared, &delta, 0), Muxed::Skipped));
    assert!(matches!(m.mux(&mut shared, &[0, 0, 0, 1, 0x65, 1], 5), Muxed::Skipped), "no parameter sets yet");
    let mut file = Vec::new();
    match m.mux(&mut shared, &keyframe(), 1000) {
        Muxed::Wrote { init, data } => {
            assert_eq!(&init[4..8], b"ftyp");
            assert!(data.is_empty(), "the first sample is held back");
            file.extend_from_slice(&init);
        }
        _ => panic!("the file starts"),
    }
    assert_eq!((shared.width, shared.height), (640, 360));
    match m.mux(&mut shared, &delta, 34_000) {
        Muxed::Wrote { init, data } => {
            assert!(init.is_empty());
            assert_eq!(&data[4..8], b"moof");
            file.extend_from_slice(&data);
        }
        _ => panic!("a sample"),
    }
    m.tell_progress(&mut shared);
    assert_eq!((shared.muxed, shared.sync_frames), (2, 1));
    assert_eq!(shared.bytes as usize, file.len());
    assert_eq!(m.fragments(), 2);
    assert!(m.committed() as usize > file.len());
    let (stats, rest) = m.finish();
    file.extend_from_slice(&rest);
    assert_eq!(stats.bytes as usize, file.len());
    let (s, remove) = close(&mut shared, stats, "p".to_string(), RecordingMode::WaylandAttached);
    assert!(!remove && !s.active && s.error.is_none());
    assert_eq!((s.frames, s.sync_frames, s.width, s.height), (2, 1, 640, 360));
    assert_eq!((s.backend, s.mode), ("wayland", "attached"));

    let mut rec = Recorder::new();
    assert!(status(&rec, 0).is_none());
    assert_eq!(outcome(&rec, "p").err().unwrap(), "recording of p produced no final status");
    rec.finished(s);
    assert_eq!(status(&rec, 0).unwrap().frames, 2);
    assert_eq!(outcome(&rec, "p").ok().unwrap().frames, 2);
    rec.started("q".to_string(), RecordingMode::X11Own);
    let live = status(&rec, 1234).unwrap();
    assert!(live.active);
    assert_eq!((live.path.as_str(), live.duration_us, live.frames), ("q", 1234, 0));
}

/// A recording without a frame is an error, and its file goes.
#[test]
fn empty_recordings_fail() {
    let mut shared = RecShared::new();
    let (stats, rest) = Muxer::new().finish();
    assert!(rest.is_empty());
    let (s, remove) = close(&mut shared, stats, "p".to_string(), RecordingMode::X11Own);
    assert!(remove);
    let e = s.error.clone().unwrap();
    assert!(e.starts_with("no recordable H.264 frames received"));
    let mut rec = Recorder::new();
    rec.finished(s);
    assert_eq!(outcome(&rec, "p").err().unwrap(), e);
}

#[test]
fn unreadable_parameter_sets_end_the_recording() {
    let mut shared = RecShared::new();
    let mut m = Muxer::new();
    let frame = [0, 0, 0, 1, 0x67, 0x42, 0xc0, 0x1e, 0, 0, 0, 1, 0x68, 0xCE, 0x38, 0x80, 0, 0, 0, 1, 0x65, 1];
    assert!(matches!(m.mux(&mut shared, &frame, 0), Muxed::Unreadable));
    assert_eq!(shared.error.as_deref(), Some("failed to parse H.264 SPS for MP4 init"));
}
