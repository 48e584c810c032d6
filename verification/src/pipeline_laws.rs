//! What the send policy and the X11 pipeline do for whoever watches: motion is sent, stills are
//! quiet but for their refresh, and scheduled keyframes keep their interval.

use vstd::prelude::*;
use crate::encoders;
use crate::encoders::StripeState;
use crate::pipeline;
use crate::pipeline::{FramePlan, FrameResult, Recovery, X11Pipeline};
use crate::settings::RustCaptureSettings;

verus! {

/// Frames a second in thousandths, at least one frame.
spec fn rate(s: RustCaptureSettings) -> int {
    if s.target_fps_milli < 1000 {
        1000
    } else {
        s.target_fps_milli as int
    }
}

proof fn interval_rounds(s: RustCaptureSettings)
    requires
        s.keyframe_interval_ms > 0,
    ensures
        ({
            let n = pipeline::idr_interval(s.target_fps_milli, s.keyframe_interval_ms) as int;
            let exact = rate(s) * s.keyframe_interval_ms;
            &&& n >= 1
            &&& exact >= 500_000 ==> -500_000 <= n * 1_000_000 - exact <= 500_000
            &&& exact < 1_500_000 ==> n == 1
        }),
{
}

proof fn multiples_are_apart(a: int, b: int, n: int)
    requires
        n >= 1,
        0 <= a < b,
        a % n == 0,
        b % n == 0,
    ensures
        b >= a + n,
        (a + n) % n == 0,
{
    vstd::arithmetic::div_mod::lemma_fundamental_div_mod(a, n);
    vstd::arithmetic::div_mod::lemma_fundamental_div_mod(b, n);
    let (p, q) = (a / n, b / n);
    assert(q >= p + 1) by (nonlinear_arith)
        requires
            n >= 1,
            a == n * p,
            b == n * q,
            a < b,
    ;
    assert(n * q >= n * (p + 1)) by (nonlinear_arith)
        requires
            n >= 1,
            q >= p + 1,
    ;
    assert(n * (p + 1) == n * p + n) by (nonlinear_arith);
    vstd::arithmetic::div_mod::lemma_mod_add_multiples_vanish(a, n);
}

/// Two scheduled keyframes with none between them lie the configured interval apart at the capture's
/// own frame rate, to half a frame; an interval shorter than a frame makes every frame one. The first
/// frame of a schedule is a keyframe, and without an interval none is scheduled.
pub proof fn scheduled_keyframes_keep_the_interval(s: RustCaptureSettings, a: u16, b: u16)
    requires
        a < b,
        pipeline::idr_scheduled(s, a),
        pipeline::idr_scheduled(s, b),
        forall|c: u16| a < c < b ==> !(#[trigger] pipeline::idr_scheduled(s, c)),
    ensures
        s.keyframe_interval_ms > 0,
        ({
            let fps = if s.target_fps_milli < 1000 {
                1000
            } else {
                s.target_fps_milli as int
            };
            let exact = fps * s.keyframe_interval_ms;
            &&& exact >= 500_000 ==> -500_000 <= (b - a) * 1_000_000 - exact <= 500_000
            &&& exact < 500_000 ==> b - a == 1
        }),
{
    let n = pipeline::idr_interval(s.target_fps_milli, s.keyframe_interval_ms) as int;
    interval_rounds(s);
    assert(a as nat % (n as nat) == 0 && b as nat % (n as nat) == 0);
    multiples_are_apart(a as int, b as int, n);
    if a + n < b {
        let c = (a + n) as u16;
        assert(c as nat % (n as nat) == 0);
        assert(pipeline::idr_scheduled(s, c));
    }
}

/// Behind a scheduled keyframe the next one follows within the interval and half a frame, wherever the
/// frames' numbers reach that far; the first frame is one; without an interval there is none.
pub proof fn scheduled_keyframes_go_on(s: RustCaptureSettings, a: u16, by: u16)
    requires
        s.keyframe_interval_ms > 0,
        pipeline::idr_scheduled(s, a),
        a < by,
        (by - a) * 1_000_000 >= (if s.target_fps_milli < 1000 {
            1000
        } else {
            s.target_fps_milli as int
        }) * s.keyframe_interval_ms + 500_000,
    ensures
        pipeline::idr_scheduled(s, 0),
        exists|c: u16| a < c <= by && #[trigger] pipeline::idr_scheduled(s, c),
{
    let n = pipeline::idr_interval(s.target_fps_milli, s.keyframe_interval_ms) as int;
    interval_rounds(s);
    vstd::arithmetic::div_mod::lemma_mod_add_multiples_vanish(a as int, n);
    assert(n <= by - a);
    let c = (a + n) as u16;
    assert(c as nat % (n as nat) == 0);
    assert(pipeline::idr_scheduled(s, c));
    vstd::arithmetic::div_mod::lemma_small_mod(0, n as nat);
}

/// No keyframe is scheduled without an interval.
pub proof fn no_interval_schedules_nothing(s: RustCaptureSettings, frame: u16)
    requires
        s.keyframe_interval_ms <= 0,
    ensures
        !pipeline::idr_scheduled(s, frame),
{
}

/// Whether a frame is sent, and at what quality, told by what the stream stands at: motion, an
/// always-on mode, a burst and an asked-for keyframe send; else only the refresh of a still does, once
/// enough stills have passed, where it was not sent yet and is of better quality. Motion goes out at
/// normal quality, a refresh at its own, and a burst at the better of the two where paint-over is on.
pub proof fn frames_are_sent_for_a_reason(
    st: StripeState,
    s: RustCaptureSettings,
    moved: bool,
    animated: bool,
    asked: bool,
)
    ensures
        ({
            let d = pipeline::decision(st, s, moved, animated, asked);
            let better = (s.video_paintover_crf as u32) < (s.video_crf as u32);
            let refresh = s.use_paint_over_quality && better && !st.paint_over_sent
                && st.no_motion_frame_count + 1 >= s.paint_over_trigger_frames;
            let busy = moved || animated || s.video_streaming_mode || asked
                || st.h264_burst_frames_remaining > 0;
            &&& d.send <==> busy || refresh
            &&& d.force_idr <==> asked
            &&& moved ==> d.target_qp == s.video_crf as u32
            &&& !busy && refresh ==> d.target_qp == s.video_paintover_crf as u32
            &&& !moved && !asked && st.h264_burst_frames_remaining > 0 ==> d.target_qp
                == if s.use_paint_over_quality && better {
                s.video_paintover_crf as u32
            } else {
                s.video_crf as u32
            }
            &&& st.h264_burst_frames_remaining <= 0 && busy ==> d.target_qp == s.video_crf as u32
        }),
{
}

/// What a decision leaves for the next: motion forgets the burst, the refresh and the stills; a burst
/// in progress has one frame less; a keyframe on a still with no burst left opens one of the configured
/// length; a quiet still is counted, and a refresh opens its burst behind itself.
pub proof fn decisions_leave_their_mark(
    st: StripeState,
    s: RustCaptureSettings,
    animated: bool,
    asked: bool,
)
    requires
        st.no_motion_frame_count < u32::MAX,
        s.video_paintover_burst_frames > i32::MIN,
    ensures
        ({
            let after = pipeline::decided(st, s, true, animated, asked);
            &&& after.h264_burst_frames_remaining == 0
            &&& after.no_motion_frame_count == 0
            &&& !after.paint_over_sent
        }),
        ({
            let after = pipeline::decided(st, s, false, animated, asked);
            let burst = st.h264_burst_frames_remaining;
            let length = s.video_paintover_burst_frames;
            let quiet = !asked && burst <= 0 && !animated && !s.video_streaming_mode;
            &&& burst > 0 && !asked ==> after.h264_burst_frames_remaining == burst - 1
            &&& burst > 1 ==> after.h264_burst_frames_remaining == burst - 1
            &&& burst <= 1 && asked && length > 0 ==> after.h264_burst_frames_remaining == length
                && after.paint_over_sent
            &&& after.no_motion_frame_count == st.no_motion_frame_count + if quiet {
                1int
            } else {
                0
            }
            &&& quiet && pipeline::decision(st, s, false, animated, asked).send ==> {
                &&& after.paint_over_sent
                &&& after.h264_burst_frames_remaining == length - 1
            }
            &&& quiet && !pipeline::decision(st, s, false, animated, asked).send ==> {
                &&& after.paint_over_sent == st.paint_over_sent
                &&& after.h264_burst_frames_remaining == burst
            }
        }),
{
}

/// The stills of a screen that stopped moving: nothing is sent until the trigger; then the refresh and
/// the rest of its burst; then nothing for good.
pub proof fn stills_are_refreshed_once(s: RustCaptureSettings, n: nat)
    requires
        s.use_paint_over_quality,
        (s.video_paintover_crf as u32) < (s.video_crf as u32),
        !s.video_streaming_mode,
        s.paint_over_trigger_frames >= 1,
        s.video_paintover_burst_frames >= 1,
        n < u32::MAX - 1,
    ensures
        ({
            let moved = pipeline::fresh_stripe();
            let d = pipeline::decision(pipeline::after_stills(moved, s, n), s, false, false, false);
            let first = s.paint_over_trigger_frames - 1;
            &&& d.send <==> first <= n < first + s.video_paintover_burst_frames
            &&& d.send ==> d.target_qp == s.video_paintover_crf as u32
            &&& !d.force_idr
        }),
{
    stills_count(s, n);
}

proof fn stills_count(s: RustCaptureSettings, n: nat)
    requires
        s.use_paint_over_quality,
        (s.video_paintover_crf as u32) < (s.video_crf as u32),
        !s.video_streaming_mode,
        s.paint_over_trigger_frames >= 1,
        s.video_paintover_burst_frames >= 1,
        n < u32::MAX - 1,
    ensures
        ({
            let st = pipeline::after_stills(pipeline::fresh_stripe(), s, n);
            let first = s.paint_over_trigger_frames - 1;
            let length = s.video_paintover_burst_frames;
            &&& st.paint_over_sent == (n > first)
            &&& st.no_motion_frame_count <= n
            &&& n <= first ==> st.no_motion_frame_count == n && st.h264_burst_frames_remaining == 0
            &&& n > first ==> st.h264_burst_frames_remaining == if n - first < length {
                length - (n - first)
            } else {
                0
            }
        }),
    decreases n,
{
    if n > 0 {
        stills_count(s, (n - 1) as nat);
    }
}

/// What an X11 frame is planned as, told by the pipeline's own state: with a session, changed content
/// is encoded at normal quality, every frame is in streaming mode, and so is a still during a burst, on
/// a due refresh or for a keyframe; a frame is skipped only where none of these holds. Without a
/// session the software encoder decides.
pub proof fn changes_are_encoded_and_stills_are_skipped(p: X11Pipeline, changed: bool)
    ensures
        ({
            let plan = p.planned(changed).0;
            let (st, s) = (p.hw_state, p.settings);
            let asked = p.pending_force_idr || pipeline::idr_scheduled(s, p.frame_counter);
            let refresh = s.use_paint_over_quality && !st.paint_over_sent
                && (s.video_paintover_crf as u32) < (s.video_crf as u32)
                && st.no_motion_frame_count + 1 >= s.paint_over_trigger_frames;
            &&& p.hw is None <==> plan is Software
            &&& p.hw is Some ==> {
                &&& changed && !s.video_streaming_mode ==> plan == (FramePlan::Encode {
                    force_idr: asked,
                    target_qp: s.video_crf as u32,
                })
                &&& s.video_streaming_mode ==> plan is Encode
                &&& st.h264_burst_frames_remaining > 0 ==> plan is Encode
                &&& refresh ==> plan is Encode
                &&& asked ==> plan is Encode
                &&& plan is Skip <==> !changed && !s.video_streaming_mode && !refresh && !asked
                    && st.h264_burst_frames_remaining <= 0
                &&& plan matches FramePlan::Encode { force_idr, target_qp } ==> {
                    &&& force_idr == asked
                    &&& target_qp == s.video_crf as u32 || target_qp == s.video_paintover_crf as u32
                }
            }
            &&& plan matches FramePlan::Software { force_idr_all } ==> {
                &&& p.pending_force_idr ==> force_idr_all
                &&& force_idr_all ==> asked
                &&& force_idr_all <==> p.pending_force_idr || (s.codec != encoders::Codec::Jpeg
                    && asked)
            }
        }),
{
}

/// A stream that sends every frame does not ask whether the content changed.
pub proof fn streams_take_no_note_of_change(p: X11Pipeline)
    requires
        p.settings.video_streaming_mode,
    ensures
        p.planned(true) == p.planned(false),
{
}

/// Planning a frame touches nothing but what the send policy remembers.
pub proof fn planning_keeps_the_pipeline(p: X11Pipeline, changed: bool)
    ensures
        ({
            let q = p.planned(changed).1;
            &&& q.settings == p.settings
            &&& q.hw == p.hw
            &&& q.frame_counter == p.frame_counter
            &&& q.pending_force_idr == p.pending_force_idr
            &&& q.hw_error_streak == p.hw_error_streak
            &&& q.hw_rebuilt == p.hw_rebuilt
            &&& p.hw is None ==> q.hw_state == p.hw_state
            &&& p.hw is Some && changed && !p.settings.video_streaming_mode ==> {
                &&& q.hw_state.no_motion_frame_count == 0
                &&& q.hw_state.h264_burst_frames_remaining == 0
            }
        }),
{
}

/// What a frame's encode delivers is what the encoder gave: a session's bytes as the one stripe of the
/// whole frame, the striped encoder's stripes as they are, and nothing where there is nothing.
pub proof fn encodes_are_delivered_as_they_are(p: X11Pipeline, result: FrameResult)
    ensures
        ({
            let out = p.delivered(result);
            match result {
                FrameResult::Encoded(data) => {
                    &&& out.len() == if data@.len() == 0 {
                        0int
                    } else {
                        1
                    }
                    &&& out.len() == 1 ==> {
                        &&& out[0].data@ == data@
                        &&& out[0].stripe_y_start == 0
                        &&& out[0].stripe_height == p.settings.height
                        &&& out[0].codec == p.settings.codec
                        &&& out[0].frame_id == p.frame_counter
                    }
                },
                FrameResult::Stripes(stripes) => out == stripes@,
                _ => out.len() == 0,
            }
        }),
{
}

/// What a frame's outcome leaves of the pipeline: an encode that came back ends a run of failures; a
/// failure adds to it, and only one that completes a run of thirty calls for another session, the
/// first time a rebuild and then software; every frame takes a number; the settings stay but for the
/// choice of software.
pub proof fn outcomes_move_the_pipeline_on(p: X11Pipeline, result: FrameResult)
    requires
        p.hw_error_streak < 30,
    ensures
        ({
            let (step, q) = p.finished(result);
            let sent = match result {
                FrameResult::Encoded(data) => data@.len() != 0,
                FrameResult::Stripes(stripes) => stripes@.len() != 0,
                _ => false,
            };
            &&& result is Encoded ==> step == Recovery::Keep && q.hw_error_streak == 0
                && !q.hw_rebuilt && q.hw == p.hw
            &&& result is Failed && p.hw_error_streak < 29 ==> step == Recovery::Keep
                && q.hw_error_streak == p.hw_error_streak + 1 && q.hw == p.hw && q.hw_rebuilt
                == p.hw_rebuilt
            &&& result is Failed && p.hw_error_streak == 29 ==> {
                &&& step == if p.hw_rebuilt {
                    Recovery::Demote
                } else {
                    Recovery::Rebuild
                }
                &&& q.hw is None
                &&& q.hw_error_streak == 0
                &&& q.hw_rebuilt
                &&& q.pending_force_idr
                &&& q.hw_state.h264_burst_frames_remaining == 0
                &&& !q.hw_state.paint_over_sent
                &&& q.hw_state.no_motion_frame_count == 0
                &&& p.hw_rebuilt ==> q.settings.use_cpu
                &&& !p.hw_rebuilt ==> q.settings == p.settings
            }
            &&& result is Stripes || result is Nothing ==> step == Recovery::Keep && q.hw == p.hw
                && q.hw_error_streak == p.hw_error_streak && q.hw_rebuilt == p.hw_rebuilt
            &&& step == Recovery::Keep ==> q.settings == p.settings && q.hw_state == p.hw_state
            &&& sent ==> !q.pending_force_idr
            &&& !sent && p.pending_force_idr ==> q.pending_force_idr
            &&& (q.frame_counter as int - p.frame_counter as int - 1) % 0x1_0000 == 0
            &&& RustCaptureSettings { use_cpu: p.settings.use_cpu, ..q.settings } == p.settings
        }),
{
}

/// A rate change sets the rate it gives and nothing else; a frame rate of nothing leaves the old one.
pub proof fn rates_are_set_and_nothing_else(
    s: RustCaptureSettings,
    bitrate_kbps: i32,
    vbv_milli: i32,
    fps_milli: u32,
)
    ensures
        ({
            let t = X11Pipeline::with_rate(s, bitrate_kbps, vbv_milli, fps_milli);
            &&& t.video_bitrate_kbps == bitrate_kbps
            &&& t.video_vbv_multiplier_milli == vbv_milli
            &&& fps_milli > 0 ==> t.target_fps_milli == fps_milli
            &&& fps_milli == 0 ==> t.target_fps_milli == s.target_fps_milli
            &&& RustCaptureSettings {
                video_bitrate_kbps: s.video_bitrate_kbps,
                video_vbv_multiplier_milli: s.video_vbv_multiplier_milli,
                target_fps_milli: s.target_fps_milli,
                ..t
            } == s
        }),
{
}

} // verus!
