//! What every encoder backend shares: codecs, stripes, levels, buffer sizing and the ladder a
//! failing hardware session recovers through.

use vstd::prelude::*;

verus! {

/// What a session encodes to.
#[derive(Clone, Copy, Debug, PartialEq, Eq, Structural)]
pub enum Codec {
    Jpeg,
    H264,
    H265,
    Vp8,
    Vp9,
    Av1,
}

impl Codec {
    /// A stream of dependent frames, unlike the stills of JPEG.
    pub open spec fn video(self) -> bool {
        self != Codec::Jpeg
    }

    pub fn is_video(self) -> (b: bool)
        ensures
            b == self.video(),
    {
        self != Codec::Jpeg
    }
}

/// The wire header's length ahead of a video payload.
pub const VIDEO_HEADER_LEN: usize = 10;

/// The wire header's first byte ahead of a video payload.
pub const WIRE_VIDEO: u8 = 0x04;

/// The stripe kind of an H.264 payload.
pub const DATA_TYPE_H264: i32 = 2;

/// When a frame was captured and encoded, in nanoseconds of one clock; zero where not taken.
#[derive(Clone, Copy, Debug, PartialEq, Eq, Structural)]
pub struct FrameTiming {
    pub capture_ns: i64,
    pub encode_start_ns: i64,
    pub encode_end_ns: i64,
}

/// One encoded stripe of a frame.
#[derive(Debug)]
pub struct EncodedStripe {
    pub data: Vec<u8>,
    pub data_type: i32,
    pub codec: Codec,
    pub stripe_y_start: i32,
    pub stripe_height: i32,
    pub frame_id: i32,
    pub timing: FrameTiming,
}

/// What the send policy remembers of a stripe between frames.
#[derive(Clone, Copy, Debug, PartialEq, Eq, Structural)]
pub struct StripeState {
    /// Frames a refresh or recovery burst still has to send.
    pub h264_burst_frames_remaining: i32,
    /// The paint-over refresh of the current still was sent.
    pub paint_over_sent: bool,
    /// Still frames since the last motion.
    pub no_motion_frame_count: u32,
}

impl Default for StripeState {
    fn default() -> (s: Self)
        ensures
            s == (StripeState {
                h264_burst_frames_remaining: 0,
                paint_over_sent: false,
                no_motion_frame_count: 0,
            }),
    {
        StripeState {
            h264_burst_frames_remaining: 0,
            paint_over_sent: false,
            no_motion_frame_count: 0,
        }
    }
}

/// The software H.264 encoder: what the striped software path and the full-frame software
/// fallback both encode with.
pub const SOFTWARE_H264_ENCODER: &'static str = "x264";

/// The software H.264 encoder carries a 4:4:4 request (High 4:4:4, full range).
pub const SOFTWARE_H264_FULLCOLOR: bool = true;

/// Consecutive encode failures before a hardware path recovers (about half a second at 60 fps):
/// a hiccup outlasts it, anything longer starts to look like a dead session.
pub const HW_ERROR_RECOVERY_THRESHOLD: u32 = 30;

/// Macroblocks along an axis of this many pixels.
pub open spec fn macroblocks(pixels: u32) -> nat {
    ((pixels + 15) / 16) as nat
}

/// A level's limits: level_idc, the most macroblocks a frame may have, the most a second.
pub open spec fn level_limits() -> Seq<(u32, u64, u64)> {
    seq![
        (41u32, 8192u64, 245760u64),
        (42u32, 8704u64, 522240u64),
        (50u32, 22080u64, 589824u64),
        (51u32, 36864u64, 983040u64),
        (52u32, 36864u64, 2073600u64),
        (60u32, 139264u64, 4177920u64),
        (61u32, 139264u64, 8355840u64),
        (62u32, 139264u64, 16711680u64),
    ]
}

/// The `i`th level admits frames of `mbs` macroblocks, `mbps` a second.
pub open spec fn admits(i: int, mbs: nat, mbps: nat) -> bool {
    mbs <= level_limits()[i].1 && mbps <= level_limits()[i].2
}

/// The first level from the `i`th on that admits a stream, or the highest there is.
pub open spec fn first_level(i: int, mbs: nat, mbps: nat) -> u32
    decreases 8 - i,
{
    if i >= 8 {
        62
    } else if admits(i, mbs, mbps) {
        level_limits()[i].0
    } else {
        first_level(i + 1, mbs, mbps)
    }
}

/// The frame rate a stream is charged at: at least one a second.
pub open spec fn charged_fps(fps: u32) -> nat {
    if fps == 0 {
        1
    } else {
        fps as nat
    }
}

/// Lowest H.264 level whose limits admit a `width` x `height` stream at `fps`, as level_idc
/// (41 = 4.1, 52 = 5.2, 62 = 6.2).
///
/// A frame is charged two ways: its size in macroblocks, and that size times the frame rate.
/// The ladder starts at 4.1; above 6.2's limits there is no higher level, so 62 stands as a best
/// effort.
pub fn min_h264_level(width: u32, height: u32, fps: u32) -> (level: u32)
    requires
        macroblocks(width) * macroblocks(height) * charged_fps(fps) <= u64::MAX,
    ensures
        level == first_level(
            0,
            macroblocks(width) * macroblocks(height),
            macroblocks(width) * macroblocks(height) * charged_fps(fps),
        ),
{
    let w: u64 = (width as u64 + 15) / 16;
    let h: u64 = (height as u64 + 15) / 16;
    assert(w * h <= 0x1000_0000 * 0x1000_0000) by (nonlinear_arith)
        requires
            w <= 0x1000_0000,
            h <= 0x1000_0000,
    ;
    let mbs: u64 = w * h;
    let rate: u64 = if fps == 0 {
        1
    } else {
        fps as u64
    };
    let mbps: u64 = mbs * rate;
    reveal_with_fuel(first_level, 9);
    if mbs <= 8192 && mbps <= 245760 {
        41
    } else if mbs <= 8704 && mbps <= 522240 {
        42
    } else if mbs <= 22080 && mbps <= 589824 {
        50
    } else if mbs <= 36864 && mbps <= 983040 {
        51
    } else if mbs <= 36864 && mbps <= 2073600 {
        52
    } else if mbs <= 139264 && mbps <= 4177920 {
        60
    } else if mbs <= 139264 && mbps <= 8355840 {
        61
    } else {
        62
    }
}

/// The level given admits the stream wherever any level does, and no lower one would.
pub proof fn level_is_the_lowest_that_admits(mbs: nat, mbps: nat, i: int)
    requires
        0 <= i < 8,
        admits(i, mbs, mbps),
    ensures
        first_level(0, mbs, mbps) <= level_limits()[i].0,
        exists|k: int|
            0 <= k < 8 && #[trigger] admits(k, mbs, mbps) && level_limits()[k].0 == first_level(
                0,
                mbs,
                mbps,
            ),
{
    reveal_with_fuel(first_level, 9);
    if admits(0, mbs, mbps) {
    } else if admits(1, mbs, mbps) {
    } else if admits(2, mbs, mbps) {
    } else if admits(3, mbs, mbps) {
    } else if admits(4, mbs, mbps) {
    } else if admits(5, mbs, mbps) {
    } else if admits(6, mbs, mbps) {
    } else {
        assert(admits(7, mbs, mbps));
    }
}

/// A larger or faster stream never gets a lower level.
pub proof fn level_grows_with_the_stream(mbs: nat, mbps: nat, more_mbs: nat, more_mbps: nat)
    requires
        mbs <= more_mbs,
        mbps <= more_mbps,
    ensures
        first_level(0, mbs, mbps) <= first_level(0, more_mbs, more_mbps),
{
    reveal_with_fuel(first_level, 9);
    assert(forall|i: int|
        0 <= i < 8 && #[trigger] admits(i, more_mbs, more_mbps) ==> admits(i, mbs, mbps));
    assert(admits(0, more_mbs, more_mbps) ==> admits(0, mbs, mbps));
}

/// The CBR buffer as thousandths of one frame's bit budget: the multiplier given, or without one
/// three frames where keyframes are scheduled and one and a half on an infinite GOP.
pub open spec fn vbv_milli(keyframe_interval_ms: i64, multiplier_milli: i32) -> nat {
    if multiplier_milli > 0 {
        multiplier_milli as nat
    } else if keyframe_interval_ms > 0 {
        3000
    } else {
        1500
    }
}

/// The frame rate a budget is taken at, in thousandths: at least one a second.
pub open spec fn budget_fps_milli(fps_milli: u32) -> nat {
    if fps_milli < 1000 {
        1000
    } else {
        fps_milli as nat
    }
}

/// That many thousandths of one frame's share of the bitrate, to the nearest bit and up from the
/// middle.
pub open spec fn vbv_exact(bitrate_bps: u32, fps_milli: nat, mult_milli: nat) -> nat {
    (2 * bitrate_bps as nat * mult_milli + fps_milli) / (2 * fps_milli)
}

/// Size the CBR VBV/HRD buffer so rate control has enough slack to hold quality steady without
/// letting end-to-end latency drift upward.
///
/// The size is a multiple of one frame's bit budget rather than a fixed count, so a live bitrate
/// or framerate change rescales the buffer with it. The result is in bits, at least one and at
/// most what 32 bits hold.
pub fn vbv_bits(
    bitrate_bps: u32,
    fps_milli: u32,
    keyframe_interval_ms: i64,
    multiplier_milli: i32,
) -> (bits: u32)
    ensures
        ({
            let exact = vbv_exact(
                bitrate_bps,
                budget_fps_milli(fps_milli),
                vbv_milli(keyframe_interval_ms, multiplier_milli),
            );
            bits == if exact < 1 {
                1
            } else if exact > u32::MAX {
                u32::MAX as nat
            } else {
                exact
            }
        }),
{
    let mult: u128 = if multiplier_milli > 0 {
        multiplier_milli as u128
    } else if keyframe_interval_ms > 0 {
        3000
    } else {
        1500
    };
    let fps: u128 = if fps_milli < 1000 {
        1000
    } else {
        fps_milli as u128
    };
    assert(2 * bitrate_bps as u128 * mult <= 0x2_0000_0000 * 0x1_0000_0000) by (nonlinear_arith)
        requires
            mult <= 0x1_0000_0000,
    ;
    let exact: u128 = (2 * bitrate_bps as u128 * mult + fps) / (2 * fps);
    if exact < 1 {
        1
    } else if exact > u32::MAX as u128 {
        u32::MAX
    } else {
        exact as u32
    }
}

/// The `Colorspace:` field of a stream log line: the chroma, and the range it is carried at.
pub open spec fn colorspace_text(fullcolor: bool, software: bool) -> Seq<char> {
    if fullcolor && software {
        "I444 (Full Range)"@
    } else if fullcolor {
        "I444 (Limited Range)"@
    } else {
        "I420 (Limited Range)"@
    }
}

/// The `Colorspace:` field of a stream log line, from what the session negotiated rather than
/// what was asked for: a hardware encoder can refuse 4:4:4, and only the software encoder carries
/// it at full range.
pub fn colorspace_desc(fullcolor: bool, software: bool) -> (s: &'static str)
    ensures
        s@ == colorspace_text(fullcolor, software),
{
    if fullcolor && software {
        "I444 (Full Range)"
    } else if fullcolor {
        "I444 (Limited Range)"
    } else {
        "I420 (Limited Range)"
    }
}

} // verus!
