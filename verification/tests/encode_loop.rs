use pixelflux::encode_loop::{
    build_next, build_readback_encoders, encode_device, encoder_desc, encoder_fullcolor,
    log_stream_settings, one_frame, rebuild_zerocopy_encoder, BuildStep, EncodeLoop, EncodePlan, Encoded, GpuEncoder, Opened,
    Recovery, WlEncodeControls,
};
use pixelflux::encoders::{FrameTiming, HW_ERROR_RECOVERY_THRESHOLD};
use pixelflux::pool::{Rect, WlFrame};
use pixelflux::recording_sink::RecordingSink;
use pixelflux::settings::{LiveTunables, RustCaptureSettings};

fn settings() -> RustCaptureSettings {
    RustCaptureSettings { width: 4, height: 2, output_mode: 1, video_fullframe: true, ..Default::default() }
}

fn frame(len: usize, damaged: bool) -> WlFrame {
    WlFrame {
        id: 0,
        buf: vec![255; len],
        frame_id: 3,
        damage: if damaged { vec![Rect { x: 0, y: 0, w: 4, h: 2 }] } else { vec![] },
        is_animated: false,
    }
}

fn timing() -> FrameTiming {
    FrameTiming { capture_ns: 1, encode_start_ns: 2, encode_end_ns: 3 }
}

/// NVENC is tried before VA-API on an unknown driver, VA-API alone on a named other one.
#[test]
fn sessions_are_built_in_turn() {
    assert!(matches!(build_readback_encoders(false, false, "", None), BuildStep::Done(None)));
    assert!(matches!(build_readback_encoders(true, false, "nvidia", None), BuildStep::OpenNvenc));
    assert!(matches!(build_readback_encoders(true, false, "i915", None), BuildStep::OpenVaapi));
    assert!(matches!(
        build_readback_encoders(true, true, "nvidia", Some(GpuEncoder::Nvenc)),
        BuildStep::Reconfigure
    ));
    assert!(matches!(build_next(BuildStep::OpenNvenc, Opened::Up { fullcolor: true }), BuildStep::Done(Some(GpuEncoder::Nvenc))));
    assert!(matches!(build_next(BuildStep::OpenVaapi, Opened::Up { fullcolor: true }), BuildStep::Done(Some(GpuEncoder::Vaapi { fullcolor: true }))));
    assert!(matches!(build_next(BuildStep::OpenVaapi, Opened::Failed), BuildStep::Done(None)));
}

/// A 4:4:4 request on a VA-API device is read back into software; NVENC and an unknown driver take
/// it, and so does a zero-copy session.
#[test]
fn full_colour_falls_through_to_software() {
    assert!(matches!(build_readback_encoders(true, true, "i915", None), BuildStep::Done(None)));
    assert!(matches!(build_readback_encoders(true, true, "amdgpu", Some(GpuEncoder::Nvenc)), BuildStep::Done(None)));
    assert!(matches!(build_readback_encoders(true, true, "nvidia", None), BuildStep::OpenNvenc));
    assert!(matches!(build_readback_encoders(true, true, "", None), BuildStep::OpenNvenc));
    assert!(matches!(rebuild_zerocopy_encoder("i915"), BuildStep::OpenVaapi));
    assert!(matches!(rebuild_zerocopy_encoder("nvidia"), BuildStep::OpenNvenc));
}

#[test]
fn nvenc_takes_rows_and_vaapi_planes() {
    let mut controls = WlEncodeControls::new();
    let mut nv = EncodeLoop::new(settings(), true, Some(GpuEncoder::Nvenc));
    assert!(nv.planes.is_empty());
    let (plan, asked) = nv.plan(&mut controls, &mut None, &frame(32, true));
    assert!(matches!(plan, EncodePlan::Packed { force_idr: false, .. }) && !asked);

    let mut va = EncodeLoop::new(settings(), true, Some(GpuEncoder::Vaapi { fullcolor: false }));
    assert_eq!(va.planes.len(), 12);
    let (plan, _) = va.plan(&mut controls, &mut None, &frame(32, true));
    assert!(matches!(plan, EncodePlan::Planes { .. }));
    assert!(va.planes[0] > 200, "white rows give bright planes");
    let (plan, _) = va.plan(&mut controls, &mut None, &frame(31, true));
    assert!(matches!(plan, EncodePlan::Unconverted));
    let (plan, _) = va.plan(&mut controls, &mut None, &frame(32, false));
    assert!(matches!(plan, EncodePlan::Skip));
}

/// A keyframe request that no frame answered stays armed.
#[test]
fn keyframe_requests_outlast_a_failed_encode() {
    let mut controls = WlEncodeControls::new();
    let mut l = EncodeLoop::new(settings(), true, Some(GpuEncoder::Nvenc));
    controls.request_idr();
    let (plan, asked) = l.plan(&mut controls, &mut None, &frame(32, false));
    assert!(asked && matches!(plan, EncodePlan::Packed { force_idr: true, .. }));
    let (out, due) = l.finish(&mut controls, plan, asked, Encoded::Failed, 3, timing());
    assert!(out.is_empty() && matches!(due, Recovery::Keep));
    assert!(controls.force_idr);
    let (plan, asked) = l.plan(&mut controls, &mut None, &frame(32, false));
    let (out, _) = l.finish(&mut controls, plan, asked, Encoded::Data(vec![9]), 4, timing());
    assert_eq!(out.len(), 1);
    assert_eq!((out[0].data.clone(), out[0].frame_id, out[0].stripe_height), (vec![9], 4, 2));
    assert!(!controls.force_idr);
}

/// A recorder that connects asks for a keyframe of its own.
#[test]
fn recorders_ask_for_keyframes_too() {
    let mut controls = WlEncodeControls::new();
    let mut sink = RecordingSink::try_bind("/tmp/x.sock", 60_000);
    sink.as_mut().unwrap().connect(1);
    let mut l = EncodeLoop::new(settings(), false, None);
    let (plan, asked) = l.plan(&mut controls, &mut sink, &frame(32, true));
    assert!(asked);
    assert!(matches!(plan, EncodePlan::Software { force_idr: true, .. }));
    assert!(!l.plan(&mut controls, &mut sink, &frame(32, true)).1);
}

#[test]
fn failing_sessions_are_rebuilt_and_then_given_up() {
    let mut controls = WlEncodeControls::new();
    let mut l = EncodeLoop::new(settings(), true, Some(GpuEncoder::Nvenc));
    let mut seen = Vec::new();
    for _ in 0..2 * HW_ERROR_RECOVERY_THRESHOLD {
        let (plan, asked) = l.plan(&mut controls, &mut None, &frame(32, true));
        let (_, due) = l.finish(&mut controls, plan, asked, Encoded::Failed, 0, timing());
        match due {
            Recovery::Keep => {}
            Recovery::Rebuild => {
                seen.push("rebuild");
                l.install(&mut controls, due, Some(GpuEncoder::Nvenc));
            }
            Recovery::Demote => {
                seen.push("demote");
                l.install(&mut controls, due, None);
                break;
            }
        }
    }
    assert_eq!(seen, vec!["rebuild", "demote"]);
    assert!(l.session.is_none());
}

#[test]
fn controls_reach_the_encode_thread() {
    let mut controls = WlEncodeControls::new();
    let mut l = EncodeLoop::new(settings(), true, Some(GpuEncoder::Nvenc));
    assert!(!l.apply_controls(&mut controls));
    let wanted = RustCaptureSettings { video_bitrate_kbps: 123, target_fps_milli: 500, ..Default::default() };
    controls.seed_rate(&wanted);
    controls.rate_dirty = true;
    let mut t = LiveTunables::from_settings(&l.settings);
    t.video_crf = 40;
    controls.tunables = Some(t);
    controls.tunables_dirty = true;
    assert!(l.apply_controls(&mut controls));
    assert_eq!((l.settings.video_bitrate_kbps, l.settings.target_fps_milli), (123, 1000));
    assert_eq!(l.settings.video_crf, 40);
    assert!(!controls.rate_dirty && !controls.tunables_dirty);
}

#[test]
fn sessions_are_described() {
    let s = settings();
    assert!(one_frame(&s, None));
    let striped = RustCaptureSettings { video_fullframe: false, ..settings() };
    assert!(!one_frame(&striped, None) && one_frame(&striped, Some(GpuEncoder::Nvenc)));
    assert_eq!(encode_device(&RustCaptureSettings { encode_node_index: 2, ..settings() }), 2);
    assert_eq!(encode_device(&RustCaptureSettings { encode_node_index: -2, ..settings() }), 0);
    assert!(encoder_fullcolor(Some(GpuEncoder::Vaapi { fullcolor: true }), &s));
    assert_eq!(encoder_desc(&s, Some(GpuEncoder::Nvenc), true), "H264 (NVENC (ZeroCopy)) CS_IN:I420 LR FF CRF:25");
    assert_eq!(encoder_desc(&striped, None, false), "H264 (CPU x264) CS_IN:I420 LR Striped CRF:25");
    assert_eq!(encoder_desc(&RustCaptureSettings { output_mode: 0, ..settings() }, None, false), "JPEG Q:75");
    let line = log_stream_settings(&s, "60.00", 1, Some(GpuEncoder::Nvenc));
    assert!(line.contains("4x2") && line.contains("60.00"));
}

/// A failure is told once a window.
#[test]
fn failures_are_told_once_a_window() {
    let mut l = EncodeLoop::new(settings(), true, Some(GpuEncoder::Nvenc));
    assert!(l.tells_failure());
    l.hw_error_streak = 1;
    assert!(!l.tells_failure());
}
