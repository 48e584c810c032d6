use pixelflux::encoders::{
    colorspace_desc, min_h264_level, vbv_bits, Codec, EncodedStripe, FrameTiming, StripeState,
    HW_ERROR_RECOVERY_THRESHOLD, SOFTWARE_H264_ENCODER, SOFTWARE_H264_FULLCOLOR,
};
use pixelflux::pipeline::{
    decide_hw_fullframe, periodic_idr_due, Backend, FrameEncoder, FramePlan, FrameResult, Recovery,
    X11Pipeline,
};
use pixelflux::settings::{LiveTunables, RustCaptureSettings};

/// A settings block for the hardware full-frame policy: paint-over on and clearly cheaper than
/// normal, a short burst, and no scheduled keyframe unless a case asks for one.
fn hw_settings() -> RustCaptureSettings {
    RustCaptureSettings {
        codec: Codec::H264,
        video_crf: 25,
        video_paintover_crf: 10,
        video_paintover_burst_frames: 3,
        paint_over_trigger_frames: 2,
        use_paint_over_quality: true,
        video_streaming_mode: false,
        keyframe_interval_ms: 0,
        target_fps_milli: 60_000,
        ..Default::default()
    }
}

#[test]
fn hw_fullframe_is_quiet_on_a_static_screen_until_the_paint_over_trigger() {
    let s = hw_settings();
    let mut st = StripeState::default();

    let first = decide_hw_fullframe(&mut st, &s, 1, false, false, false);
    assert!(!first.send, "a static screen sends nothing before the trigger");
    assert_eq!(st.no_motion_frame_count, 1);

    // The second static frame reaches paint_over_trigger_frames.
    let refresh = decide_hw_fullframe(&mut st, &s, 2, false, false, false);
    assert!(refresh.send, "the paint-over refresh sends");
    assert!(!refresh.force_idr, "a refresh is not a keyframe");
    assert_eq!(refresh.target_qp, s.video_paintover_crf as u32, "and sends at paint-over quality");
    assert!(st.paint_over_sent);

    // Sent once: the screen is still static, so nothing follows it but the burst.
    let after = decide_hw_fullframe(&mut st, &s, 3, false, false, false);
    assert!(after.send, "the burst keeps streaming after the refresh");
    let burst_left = st.h264_burst_frames_remaining;
    for _ in 0..burst_left {
        let _ = decide_hw_fullframe(&mut st, &s, 4, false, false, false);
    }
    assert!(!decide_hw_fullframe(&mut st, &s, 5, false, false, false).send,
            "the screen goes quiet again once the burst is spent");
}

#[test]
fn hw_fullframe_motion_sends_at_normal_quality_and_cancels_the_burst() {
    let s = hw_settings();
    let mut st = StripeState::default();
    st.h264_burst_frames_remaining = 3;
    st.paint_over_sent = true;
    st.no_motion_frame_count = 9;

    let d = decide_hw_fullframe(&mut st, &s, 1, true, false, false);
    assert!(d.send);
    assert!(!d.force_idr, "motion alone is not a keyframe");
    assert_eq!(d.target_qp, s.video_crf as u32);
    assert_eq!(st.h264_burst_frames_remaining, 0, "the burst is dropped");
    assert_eq!(st.no_motion_frame_count, 0);
    assert!(!st.paint_over_sent);
}

#[test]
fn hw_fullframe_requested_idr_opens_a_recovery_burst_only_when_static() {
    let s = hw_settings();
    let mut st = StripeState::default();
    let quiet = decide_hw_fullframe(&mut st, &s, 1, false, false, true);
    assert!(quiet.send && quiet.force_idr);
    assert_eq!(st.h264_burst_frames_remaining, s.video_paintover_burst_frames,
               "a keyframe on a static screen is followed by the burst");

    let mut moving = StripeState::default();
    let dirty = decide_hw_fullframe(&mut moving, &s, 1, true, false, true);
    assert!(dirty.send && dirty.force_idr);
    assert_eq!(moving.h264_burst_frames_remaining, 0,
               "motion carries the refinement, so no burst is opened");
}

#[test]
fn hw_fullframe_streaming_and_scheduled_keyframes_send_unconditionally() {
    let mut s = hw_settings();
    s.video_streaming_mode = true;
    let mut st = StripeState::default();
    assert!(decide_hw_fullframe(&mut st, &s, 1, false, false, false).send,
            "streaming mode sends a static frame");

    s.video_streaming_mode = false;
    let mut animated = StripeState::default();
    assert!(decide_hw_fullframe(&mut animated, &s, 1, false, true, false).send,
            "an animated overlay sends a static frame");

    // 1 s at 60 fps: frame 60 is due, 61 is not.
    s.keyframe_interval_ms = 1000;
    let mut scheduled = StripeState::default();
    assert!(decide_hw_fullframe(&mut scheduled, &s, 60, false, false, false).force_idr);
    let mut off_beat = StripeState::default();
    assert!(!decide_hw_fullframe(&mut off_beat, &s, 61, false, false, false).force_idr);
}

fn software_settings(fullcolor: bool) -> RustCaptureSettings {
    RustCaptureSettings {
        width: 64,
        height: 64,
        codec: Codec::H264,
        use_cpu: true,
        video_fullcolor: fullcolor,
        ..Default::default()
    }
}

/// The software path carries a 4:4:4 request exactly when the build's encoder does.
#[test]
fn x11_colorspace_desc_reports_what_the_software_encoder_carries() {
    let carries_444 = SOFTWARE_H264_FULLCOLOR;
    assert_eq!(carries_444, SOFTWARE_H264_ENCODER == "x264");
    let i444 = if carries_444 { "I444 (Full Range)" } else { "I420 (Limited Range)" };
    for (fullcolor, expected) in [(true, i444), (false, "I420 (Limited Range)")] {
        let p = X11Pipeline::new(software_settings(fullcolor), None);
        assert_eq!(p.encoder_name(), format!("CPU ({})", SOFTWARE_H264_ENCODER));
        assert_eq!(p.colorspace_desc(), expected);
        assert_eq!(
            p.colorspace_desc(),
            colorspace_desc(fullcolor && carries_444, true),
            "X11 and Wayland must describe the same session identically"
        );
    }
}

fn settings() -> RustCaptureSettings {
    RustCaptureSettings {
        video_crf: 25,
        video_paintover_crf: 18,
        paint_over_trigger_frames: 3,
        use_paint_over_quality: true,
        video_paintover_burst_frames: 5,
        video_streaming_mode: false,
        target_fps_milli: 60_000,
        ..Default::default()
    }
}

#[test]
fn static_frames_stay_silent_without_request() {
    let mut s = settings();
    s.use_paint_over_quality = false;
    let mut st = StripeState::default();
    for fc in [0u16, 1, 120, 240] {
        let d = decide_hw_fullframe(&mut st, &s, fc, false, false, false);
        assert!(!d.send && !d.force_idr, "frame {fc} should stay idle");
    }
}

#[test]
fn requested_idr_forces_send_even_on_static() {
    let s = settings();
    let mut st = StripeState::default();
    let d = decide_hw_fullframe(&mut st, &s, 5, false, false, true);
    assert!(d.send && d.force_idr);
    assert_eq!(d.target_qp, 25);
    assert_eq!(st.h264_burst_frames_remaining, 5);
    let d = decide_hw_fullframe(&mut st, &s, 6, false, false, false);
    assert!(d.send && !d.force_idr);
    assert_eq!(d.target_qp, 18);
    assert_eq!(st.h264_burst_frames_remaining, 4);
    let d = decide_hw_fullframe(&mut st, &s, 7, true, false, false);
    assert!(d.send && !d.force_idr);
    assert_eq!(d.target_qp, 25);
    assert_eq!(st.h264_burst_frames_remaining, 0);
}

#[test]
fn requested_idr_recovers_even_without_paint_over() {
    let mut s = settings();
    s.use_paint_over_quality = false;
    let mut st = StripeState::default();
    let d = decide_hw_fullframe(&mut st, &s, 5, false, false, true);
    assert!(d.send && d.force_idr);
    assert_eq!(st.h264_burst_frames_remaining, 5, "recovery burst armed without paint-over");
    let d = decide_hw_fullframe(&mut st, &s, 6, false, false, false);
    assert!(d.send && !d.force_idr);
    assert_eq!(d.target_qp, 25);
}

#[test]
fn configured_interval_restores_scheduled_keyframes() {
    let mut s = settings();
    s.keyframe_interval_ms = 2000;
    assert!(periodic_idr_due(&s, 0));
    assert!(!periodic_idr_due(&s, 1));
    assert!(periodic_idr_due(&s, 120));
    let mut st = StripeState::default();
    let d = decide_hw_fullframe(&mut st, &s, 120, false, false, false);
    assert!(d.send && d.force_idr, "interval keyframe fires on a static screen");
    s.keyframe_interval_ms = 0;
    assert!(!periodic_idr_due(&s, 0) && !periodic_idr_due(&s, 120));
}

#[test]
fn paint_over_fires_after_trigger_then_bursts() {
    let s = settings();
    let mut st = StripeState::default();
    for fc in 1..=2 {
        let d = decide_hw_fullframe(&mut st, &s, fc, false, false, false);
        assert!(!d.send, "frame {fc} should stay idle");
    }
    let d = decide_hw_fullframe(&mut st, &s, 3, false, false, false);
    assert!(d.send && !d.force_idr);
    assert_eq!(d.target_qp, 18);
    assert_eq!(st.h264_burst_frames_remaining, 4);
    let d = decide_hw_fullframe(&mut st, &s, 4, false, false, false);
    assert!(d.send && !d.force_idr);
    assert_eq!(d.target_qp, 18);
    assert_eq!(st.h264_burst_frames_remaining, 3);
}

#[test]
fn motion_resets_paintover_and_uses_normal_qp() {
    let s = settings();
    let mut st = StripeState {
        paint_over_sent: true,
        h264_burst_frames_remaining: 2,
        no_motion_frame_count: 9,
        ..Default::default()
    };
    let d = decide_hw_fullframe(&mut st, &s, 7, true, false, false);
    assert!(d.send);
    assert_eq!(d.target_qp, 25);
    assert!(!st.paint_over_sent);
    assert_eq!(st.h264_burst_frames_remaining, 0);
    assert_eq!(st.no_motion_frame_count, 0);
}

/// An infinite GOP uses 1.5 frames of headroom, scheduled keyframes relax to 3 frames, and an
/// explicit multiplier overrides both and rescales with bitrate.
#[test]
fn vbv_policy() {
    let frame = 4_000_000f64 / 60.0;
    assert_eq!(vbv_bits(4_000_000, 60_000, 0, 0), (frame * 1.5).round() as u32);
    assert_eq!(vbv_bits(4_000_000, 60_000, 2000, 0), (frame * 3.0).round() as u32);
    assert_eq!(vbv_bits(4_000_000, 60_000, 2000, 1000), frame.round() as u32);
    assert_eq!(vbv_bits(8_000_000, 60_000, 0, 1000), (2.0 * frame).round() as u32);
}

#[test]
fn levels_admit_the_stream() {
    assert_eq!(min_h264_level(640, 480, 30), 41);
    assert_eq!(min_h264_level(1920, 1080, 30), 41);
    assert_eq!(min_h264_level(1920, 1080, 60), 42);
    assert_eq!(min_h264_level(3840, 2160, 30), 51);
    assert_eq!(min_h264_level(3840, 2160, 60), 52);
    assert_eq!(min_h264_level(16384, 16384, 60), 62);
}

fn hw_pipeline() -> X11Pipeline {
    let hw = FrameEncoder { backend: Backend::Nvenc, name: "NVENC".to_string(), fullcolor: false };
    X11Pipeline::new(hw_settings(), Some(hw))
}

fn stripe() -> EncodedStripe {
    EncodedStripe {
        data: vec![1],
        data_type: 2,
        codec: Codec::H264,
        stripe_y_start: 0,
        stripe_height: 64,
        frame_id: 0,
        timing: FrameTiming { capture_ns: 0, encode_start_ns: 0, encode_end_ns: 0 },
    }
}

/// A keyframe request that no frame answered stays armed.
#[test]
fn unserved_keyframe_requests_stay_armed() {
    let mut p = hw_pipeline();
    p.request_idr();
    let plan = p.plan_frame(false);
    assert!(matches!(plan, FramePlan::Encode { force_idr: true, .. }));
    let (out, recovery) = p.finish_frame(plan, FrameResult::Failed);
    assert!(out.is_empty() && matches!(recovery, Recovery::Keep));
    assert!(p.pending_force_idr);
    let plan = p.plan_frame(false);
    assert!(matches!(plan, FramePlan::Encode { force_idr: true, .. }));
    let (out, _) = p.finish_frame(plan, FrameResult::Encoded(vec![1, 2, 3]));
    assert_eq!(out.len(), 1);
    assert_eq!(out[0].data, vec![1, 2, 3]);
    assert!(!p.pending_force_idr);
}

/// A failing session is rebuilt once; the rebuilt one that fails too is given up.
#[test]
fn a_failing_session_is_rebuilt_then_demoted() {
    let mut p = hw_pipeline();
    let mut seen = Vec::new();
    for _ in 0..2 * HW_ERROR_RECOVERY_THRESHOLD {
        let plan = p.plan_frame(true);
        let (_, r) = p.finish_frame(plan, FrameResult::Failed);
        match r {
            Recovery::Keep => {}
            Recovery::Rebuild => {
                seen.push("rebuild");
                p.install(Some(FrameEncoder { backend: Backend::Nvenc, name: "NVENC".to_string(), fullcolor: false }));
            }
            Recovery::Demote => {
                seen.push("demote");
                p.install(None);
                break;
            }
        }
    }
    assert_eq!(seen, vec!["rebuild", "demote"]);
    assert!(!p.is_hardware());
}

#[test]
fn software_frames_hand_their_stripes_on() {
    let mut p = X11Pipeline::new(software_settings(false), None);
    assert_eq!(p.codec(), Codec::H264);
    p.request_idr();
    let plan = p.plan_frame(true);
    assert!(matches!(plan, FramePlan::Software { force_idr_all: true }));
    let (out, _) = p.finish_frame(plan, FrameResult::Stripes(vec![stripe(), stripe()]));
    assert_eq!(out.len(), 2);
    let plan = p.plan_frame(true);
    assert!(matches!(plan, FramePlan::Software { force_idr_all: false }));
}

#[test]
fn rates_and_tunables_change_a_running_pipeline() {
    let mut p = hw_pipeline();
    p.update_rate(9000, 1500, 30_000);
    assert_eq!(p.settings.video_bitrate_kbps, 9000);
    assert_eq!(p.settings.video_vbv_multiplier_milli, 1500);
    assert_eq!(p.settings.target_fps_milli, 30_000);
    let mut t = LiveTunables::from_settings(&p.settings);
    t.video_crf = 33;
    p.update_tunables(&t);
    assert_eq!(p.settings.video_crf, 33);
    assert_eq!(LiveTunables::from_settings(&p.settings).video_crf, 33);
}

/// Only a session that takes the new size lets the pipeline go on without a rebuild.
#[test]
fn resized_surfaces_are_followed_where_they_can_be() {
    let mut p = hw_pipeline();
    assert!(p.resize_asks_session(true) && !p.resize_asks_session(false));
    let bigger = RustCaptureSettings { width: 2048, codec: Codec::Jpeg, ..hw_settings() };
    assert!(!p.reshape(&bigger, true, false));
    assert_eq!(p.settings.width, 1024, "a refused size changes nothing");
    p.hw_state.no_motion_frame_count = 7;
    assert!(p.reshape(&bigger, true, true));
    assert_eq!((p.settings.width, p.settings.codec), (2048, Codec::H264));
    assert_eq!(p.hw_state.no_motion_frame_count, 0);
    let vaapi = FrameEncoder { backend: Backend::Vaapi, name: "VAAPI".to_string(), fullcolor: false };
    let mut p = X11Pipeline::new(hw_settings(), Some(vaapi));
    assert!(!p.resize_asks_session(true) && !p.reshape(&bigger, true, true));
    assert!(p.reshape(&bigger, false, false));
    assert!(X11Pipeline::new(hw_settings(), None).reshape(&bigger, true, false));
}

/// A session that cannot take a new rate is rebuilt, and given up the next time.
#[test]
fn sessions_that_lose_their_rate_are_recovered() {
    let mut p = hw_pipeline();
    assert!(p.compares_content());
    assert_eq!(p.rate_reconfigured(true), Recovery::Keep);
    assert_eq!(p.rate_reconfigured(false), Recovery::Rebuild);
    assert!(!p.compares_content(), "without a session nothing is compared");
    assert_eq!(p.rate_reconfigured(false), Recovery::Keep);
    p.install(Some(FrameEncoder { backend: Backend::Nvenc, name: "NVENC".to_string(), fullcolor: false }));
    assert_eq!(p.rate_reconfigured(false), Recovery::Demote);
    assert!(p.settings.use_cpu);
}

/// A requested keyframe is asked for again through errors and a rebuild until a frame is delivered,
/// and not beyond.
#[test]
fn keyframe_requests_survive_errors_and_rebuilds() {
    let mut p = hw_pipeline();
    p.request_idr();
    for _ in 0..HW_ERROR_RECOVERY_THRESHOLD {
        let plan = p.plan_frame(false);
        assert!(matches!(plan, FramePlan::Encode { force_idr: true, .. }));
        let (out, step) = p.finish_frame(plan, FrameResult::Failed);
        assert!(out.is_empty());
        if step == Recovery::Rebuild {
            p.install(Some(FrameEncoder { backend: Backend::Nvenc, name: "NVENC".to_string(), fullcolor: false }));
        }
    }
    let plan = p.plan_frame(false);
    assert!(matches!(plan, FramePlan::Encode { force_idr: true, .. }));
    let (out, _) = p.finish_frame(plan, FrameResult::Encoded(vec![1]));
    assert_eq!(out.len(), 1);
    assert!(!matches!(p.plan_frame(true), FramePlan::Encode { force_idr: true, .. }));
}
