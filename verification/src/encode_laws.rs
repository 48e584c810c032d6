//! What the encode thread does for the stream: what changed reaches the encoder, what the encoder
//! gives reaches the consumer, and a buffer is sized for the rate it serves.

use vstd::prelude::*;
use crate::csc;
use crate::encode_loop;
use crate::encode_loop::{
    BuildStep, EncodeLoop, EncodePlan, Encoded, GpuEncoder, Opened, WlEncodeControls,
};
use crate::encoders;
use crate::encoders::{EncodedStripe, FrameTiming};
use crate::pipeline;
use crate::pool::{Rect, WlFrame};
use crate::recording_sink::RecordingSink;
use crate::settings::RustCaptureSettings;

verus! {

/// A pixel lies in a rectangle.
pub open spec fn in_rect(r: Rect, x: int, y: int) -> bool {
    r.x <= x < r.x + r.w && r.y <= y < r.y + r.h
}

/// A pixel lies in some rectangle of a list.
pub open spec fn in_some(rects: Seq<Rect>, x: int, y: int) -> bool {
    exists|i: int| 0 <= i < rects.len() && in_rect(#[trigger] rects[i], x, y)
}

/// Without a session the software encoder is given everything that changed: every rectangle of the
/// frame's damage in its order, and for an animated frame the whole output besides. So every damaged
/// pixel lies in a rectangle it is given, and of a frame that is not animated no other pixel does.
pub proof fn software_is_given_all_that_changed(
    l: EncodeLoop,
    frame: WlFrame,
    asked: bool,
    plan: EncodePlan,
    x: int,
    y: int,
)
    requires
        l.session is None,
        l.planned(frame, asked, plan),
    ensures
        plan is Software,
        plan->Software_damage@.len() >= frame.damage@.len(),
        forall|i: int|
            0 <= i < frame.damage@.len() ==> #[trigger] plan->Software_damage@[i]
                == frame.damage@[i],
        in_some(frame.damage@, x, y) ==> in_some(plan->Software_damage@, x, y),
        frame.is_animated && 0 <= x < l.settings.width && 0 <= y < l.settings.height ==> in_some(
            plan->Software_damage@,
            x,
            y,
        ),
        !frame.is_animated && in_some(plan->Software_damage@, x, y) ==> in_some(
            frame.damage@,
            x,
            y,
        ),
        asked ==> plan->Software_force_idr,
        l.settings.output_mode == 1 && pipeline::idr_scheduled(l.settings, frame.frame_id)
            ==> plan->Software_force_idr,
        plan->Software_force_idr ==> asked || (l.settings.output_mode == 1
            && l.settings.keyframe_interval_ms > 0),
{
    let given = plan->Software_damage@;
    if in_some(frame.damage@, x, y) {
        let i = choose|i: int|
            0 <= i < frame.damage@.len() && in_rect(#[trigger] frame.damage@[i], x, y);
        assert(in_rect(given[i], x, y));
    }
    if frame.is_animated {
        let whole = given[frame.damage@.len() as int];
        assert(whole.x == 0 && whole.y == 0 && whole.w == l.settings.width && whole.h
            == l.settings.height);
        assert(0 <= x < l.settings.width && 0 <= y < l.settings.height ==> in_rect(whole, x, y));
    } else if in_some(given, x, y) {
        let i = choose|i: int| 0 <= i < given.len() && in_rect(#[trigger] given[i], x, y);
        assert(in_rect(frame.damage@[i], x, y));
    }
}

/// With a session, a frame with damage is encoded at normal quality; so is, at some quality, every
/// animated frame, every frame of the streaming mode, of a burst, of a due refresh and for a keyframe.
/// Only a still with none of these is skipped. NVENC takes the rows, VA-API the planes they are
/// converted into, and rows that cannot be converted are never submitted as older planes.
pub proof fn sessions_are_given_all_that_changed(
    l: EncodeLoop,
    frame: WlFrame,
    asked: bool,
    plan: EncodePlan,
)
    requires
        l.session is Some,
        l.planned(frame, asked, plan),
    ensures
        ({
            let (st, s) = (l.hw_state, l.settings);
            let idr = asked || pipeline::idr_scheduled(s, frame.frame_id);
            let refresh = s.use_paint_over_quality && !st.paint_over_sent
                && (s.video_paintover_crf as u32) < (s.video_crf as u32)
                && st.no_motion_frame_count + 1 >= s.paint_over_trigger_frames;
            let sends = frame.damage@.len() > 0 || frame.is_animated || s.video_streaming_mode || idr
                || st.h264_burst_frames_remaining > 0 || refresh;
            let all_rows = l.settings.width as u32 > 0 && l.settings.height as u32 > 0
                && frame.buf@.len() >= (l.settings.width as u32) * (l.settings.height as u32) * 4;
            &&& plan !is Software
            &&& plan is Skip <==> !sends
            &&& sends && l.session == Some(GpuEncoder::Nvenc) ==> plan is Packed
            &&& sends && l.session->0 is Vaapi ==> plan is Planes || plan is Unconverted
            &&& plan is Planes ==> all_rows
            &&& plan is Unconverted && l.hw_fullcolor ==> !all_rows
            &&& plan is Unconverted && l.settings.width as u32 % 2 == 0 && l.settings.height as u32
                % 2 == 0 ==> !all_rows
            &&& plan matches EncodePlan::Packed { qp, force_idr } ==> {
                &&& force_idr == idr
                &&& frame.damage@.len() > 0 ==> qp == s.video_crf as u32
            }
            &&& plan matches EncodePlan::Planes { qp, force_idr } ==> {
                &&& force_idr == idr
                &&& frame.damage@.len() > 0 ==> qp == s.video_crf as u32
            }
        }),
{
}

/// What an encode gives is what is sent: a session's bytes as one stripe over the whole height, the
/// software encoder's stripes as they are; nothing where the frame was skipped or failed.
pub proof fn encodes_are_sent_as_they_are(
    l: EncodeLoop,
    plan: EncodePlan,
    result: Encoded,
    frame_id: u16,
    timing: FrameTiming,
    out: Seq<EncodedStripe>,
)
    requires
        l.sent(plan, result, frame_id, timing, out),
    ensures
        plan is Skip || result is Failed ==> out.len() == 0,
        plan !is Skip ==> (result matches Encoded::Stripes(stripes) ==> out == stripes@),
        plan !is Skip ==> (result matches Encoded::Data(data) ==> {
            &&& data@.len() == 0 ==> out.len() == 0
            &&& data@.len() > 0 ==> out.len() == 1 && out[0].data@ == data@
                && out[0].stripe_y_start == 0 && out[0].stripe_height == l.settings.height
                && out[0].frame_id == frame_id && out[0].timing == timing && out[0].codec
                == encoders::Codec::H264
        }),
{
}

/// What other threads asked for is taken in once and whole: a pending rate and pending tunables reach
/// the settings field by field and are pending no more; what is not pending changes nothing; and a
/// keyframe request is left for the frame to take.
pub proof fn pending_changes_are_taken_in_once(c: WlEncodeControls, s: RustCaptureSettings)
    ensures
        ({
            let t = c.rated(c.tuned(s));
            &&& !c.rate_dirty && !c.tunables_dirty ==> t == s
            &&& c.rate_dirty ==> t.video_bitrate_kbps == c.bitrate_kbps
                && t.video_vbv_multiplier_milli == c.vbv_mult_milli
            &&& c.rate_dirty && c.fps_milli > 0 ==> t.target_fps_milli == c.fps_milli
            &&& !c.rate_dirty || c.fps_milli == 0 ==> t.target_fps_milli == s.target_fps_milli
            &&& !c.rate_dirty ==> t.video_bitrate_kbps == s.video_bitrate_kbps
            &&& c.tunables_dirty ==> (c.tunables matches Some(n) ==> {
                &&& t.jpeg_quality == n.jpeg_quality
                &&& t.paint_over_jpeg_quality == n.paint_over_jpeg_quality
                &&& t.use_paint_over_quality == n.use_paint_over_quality
                &&& t.paint_over_trigger_frames == n.paint_over_trigger_frames
                &&& t.video_crf == n.video_crf
                &&& t.video_paintover_crf == n.video_paintover_crf
                &&& t.video_paintover_burst_frames == n.video_paintover_burst_frames
                &&& t.video_streaming_mode == n.video_streaming_mode
                &&& t.keyframe_interval_ms == n.keyframe_interval_ms
                &&& t.capture_cursor == n.capture_cursor
                &&& t.cursor_size_cap == n.cursor_size_cap
            })
            &&& !c.tunables_dirty ==> t.video_crf == s.video_crf && t.jpeg_quality == s.jpeg_quality
            &&& t.width == s.width && t.height == s.height && t.output_mode == s.output_mode
            &&& t.video_fullcolor == s.video_fullcolor && t.use_cpu == s.use_cpu
        }),
        !c.applied().rate_dirty && !c.applied().tunables_dirty,
        c.applied().force_idr == c.force_idr,
        c.tunables_dirty ==> c.applied().tunables is None,
        c.applied().rated(c.applied().tuned(s)) == s,
{
}

/// A keyframe is asked for by whoever asks: the controls, or a recorder that connected; by nobody
/// else.
pub proof fn keyframes_are_asked_for_by_someone(c: WlEncodeControls, sink: Option<RecordingSink>)
    ensures
        c.force_idr ==> EncodeLoop::asked(c, sink),
        sink matches Some(k) ==> (k.client_connected ==> EncodeLoop::asked(c, sink)),
        !c.force_idr && sink is None ==> !EncodeLoop::asked(c, sink),
        !c.force_idr && (sink matches Some(k) ==> !k.client_connected) ==> !EncodeLoop::asked(
            c,
            sink,
        ),
{
}

/// A session that comes up is of the kind its driver is for: NVENC where the driver is NVIDIA's or
/// unknown, VA-API elsewhere, with the chroma the device told; none that failed is a session. One
/// handed over is kept where it takes the new settings, and replaced by a new one where not.
pub proof fn sessions_follow_their_driver(
    driver: Seq<char>,
    prior: Option<GpuEncoder>,
    fullcolor: bool,
)
    ensures
        ({
            let nvidia = crate::gpu::selects_nvenc(driver);
            let first = encode_loop::device_step(driver, prior);
            let up = Opened::Up { fullcolor };
            &&& driver.len() == 0 ==> nvidia
            &&& nvidia ==> encode_loop::next_step(first, up) == BuildStep::Done(
                Some(GpuEncoder::Nvenc),
            )
            &&& !nvidia ==> encode_loop::next_step(first, up) == BuildStep::Done(
                Some(GpuEncoder::Vaapi { fullcolor }),
            )
            &&& first == BuildStep::Reconfigure <==> nvidia && prior == Some(GpuEncoder::Nvenc)
            &&& first == BuildStep::Reconfigure ==> encode_loop::next_step(first, Opened::Failed)
                == BuildStep::OpenNvenc
            &&& first != BuildStep::Reconfigure ==> encode_loop::next_step(first, Opened::Failed)
                == BuildStep::Done(None)
            &&& first !is Done
        }),
{
}

/// A stream is 4:4:4 only where it was asked for or its device says so, and the rows are converted
/// with the function for their chroma and their colour order.
pub proof fn rows_are_converted_as_they_are(
    packed: Seq<u8>,
    w: u32,
    h: u32,
    planes: Seq<u8>,
    asked: bool,
    device: bool,
)
    ensures
        csc::converted(packed, w, h, true, true, planes) == csc::rgba_444_planes(
            packed,
            w,
            h,
            planes,
        ),
        csc::converted(packed, w, h, true, false, planes) == csc::bgra_444_planes(
            packed,
            w,
            h,
            planes,
        ),
        csc::converted(packed, w, h, false, true, planes) == csc::rgba_nv12_planes(
            packed,
            w,
            h,
            planes,
        ),
        csc::converted(packed, w, h, false, false, planes) == csc::bgra_nv12_planes(
            packed,
            w,
            h,
            planes,
        ),
        encode_loop::carries_444(Some(GpuEncoder::Vaapi { fullcolor: device }), asked) == device,
        encode_loop::carries_444(Some(GpuEncoder::Nvenc), asked) == asked,
        encode_loop::carries_444(None, asked) ==> asked,
        w % 2 == 0 && h % 2 == 0 ==> csc::convertible(packed, w, h, false)
            == csc::convertible(packed, w, h, true),
        csc::convertible(packed, w, h, true) <==> w > 0 && h > 0 && packed.len() >= 4 * (w * h),
        csc::convertible(packed, w, h, false) ==> w % 2 == 0 && h % 2 == 0,
{
    assert((w * h) * 4 == 4 * (w * h));
}

/// The planes of a frame have room for its luma and its chroma: at 4:4:4 as much for either chroma as
/// for luma, at 4:2:0 half as much for both together, to the byte.
pub proof fn planes_hold_luma_and_chroma(pixels: int)
    requires
        pixels >= 0,
    ensures
        csc::planes_len(pixels, true) == pixels + pixels + pixels,
        2 * (csc::planes_len(pixels, false) - pixels) <= pixels < 2 * (csc::planes_len(pixels, false)
            - pixels) + 2,
{
}

/// The rate buffer holds its multiple of one frame's bits, to half a bit: the multiplier given, else
/// three frames where keyframes are scheduled, else one and a half.
pub proof fn buffers_hold_their_frames(bps: u32, fps_milli: u32, interval_ms: i64, mult_milli: i32)
    ensures
        ({
            let fps = if fps_milli < 1000 {
                1000int
            } else {
                fps_milli as int
            };
            let milli = if mult_milli > 0 {
                mult_milli as int
            } else if interval_ms > 0 {
                3000
            } else {
                1500
            };
            let bits = encoders::vbv_exact(
                bps,
                encoders::budget_fps_milli(fps_milli),
                encoders::vbv_milli(interval_ms, mult_milli),
            );
            -fps <= 2 * (bits * fps) - 2 * (bps * milli) <= fps
        }),
{
    let fps = encoders::budget_fps_milli(fps_milli) as int;
    let milli = encoders::vbv_milli(interval_ms, mult_milli) as int;
    let n = 2 * bps as int * milli + fps;
    let d = 2 * fps;
    vstd::arithmetic::div_mod::lemma_fundamental_div_mod(n, d);
    vstd::arithmetic::div_mod::lemma_mod_bound(n, d);
    let q = n / d;
    assert(d * q == 2 * (q * fps)) by (nonlinear_arith)
        requires
            d == 2 * fps,
    ;
    assert(2 * bps as int * milli == 2 * (bps as int * milli)) by (nonlinear_arith);
}

/// A stream gets the level whose own limits it keeps, the lowest of them: level 4.1 for what fits it,
/// and so on up; what fits none gets the highest. A frame counts its macroblocks of sixteen pixels a
/// side, begun ones too.
pub proof fn levels_are_the_standards(mbs: nat, mbps: nat, pixels: u32)
    ensures
        ({
            let level = encoders::first_level(0, mbs, mbps);
            &&& level == 41 <==> mbs <= 8192 && mbps <= 245_760
            &&& level == 42 ==> mbs <= 8704 && mbps <= 522_240
            &&& level == 50 ==> mbs <= 22_080 && mbps <= 589_824
            &&& level == 51 ==> mbs <= 36_864 && mbps <= 983_040
            &&& level == 52 ==> mbs <= 36_864 && mbps <= 2_073_600
            &&& level == 60 ==> mbs <= 139_264 && mbps <= 4_177_920
            &&& level == 61 ==> mbs <= 139_264 && mbps <= 8_355_840
            &&& mbs <= 8704 && mbps <= 522_240 ==> level <= 42
            &&& mbs <= 22_080 && mbps <= 589_824 ==> level <= 50
            &&& mbs <= 36_864 && mbps <= 983_040 ==> level <= 51
            &&& mbs <= 36_864 && mbps <= 2_073_600 ==> level <= 52
            &&& mbs <= 139_264 && mbps <= 4_177_920 ==> level <= 60
            &&& mbs <= 139_264 && mbps <= 8_355_840 ==> level <= 61
            &&& mbs > 139_264 || mbps > 8_355_840 ==> level == 62
        }),
        16 * encoders::macroblocks(pixels) >= pixels,
        16 * encoders::macroblocks(pixels) < pixels + 16,
{
    reveal_with_fuel(encoders::first_level, 9);
}

} // verus!
