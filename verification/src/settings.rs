//! The full set of capture and encode parameters of a session, and the part of them that can
//! change while it runs.

use vstd::prelude::*;
use crate::encoders::Codec;

verus! {

/// Upper bound for capture geometry: covers every real display wall and keeps a setting from
/// sizing an absurd frame buffer.
pub const MAX_CAPTURE_DIM: i32 = 16384;

/// The highest frame rate, in thousandths of a frame a second.
pub const MAX_FPS_MILLI: u32 = 1_000_000;

/// The frame rate of a setting that gives none, in thousandths.
pub const DEFAULT_FPS_MILLI: u32 = 60_000;

/// The highest output scale, in millionths.
pub const MAX_SCALE_MICRO: u32 = 8_000_000;

/// A scale of one, in millionths.
pub const UNIT_SCALE_MICRO: u32 = 1_000_000;

/// Longest cursor edge the cursor callback delivers where a setting gives none.
pub const DEFAULT_CURSOR_CAP: i32 = 32;

/// The full set of capture and encode parameters.
///
/// A single value configures a capture session end to end: capture geometry and frame rate, the
/// output mode, the quality and rate-control knobs, cursor and watermark options, the
/// encode-device selection, and the optional recording socket. Rates and intervals are whole
/// thousandths of a frame a second and of a second; scales are whole millionths.
#[derive(Debug)]
pub struct RustCaptureSettings {
    pub width: i32,
    pub height: i32,
    pub scale_micro: u32,
    pub capture_x: i32,
    pub capture_y: i32,
    pub target_fps_milli: u32,
    pub jpeg_quality: i32,
    pub paint_over_jpeg_quality: i32,
    pub use_paint_over_quality: bool,
    pub paint_over_trigger_frames: u32,
    pub damage_block_threshold: u32,
    pub damage_block_duration: u32,
    /// 0 = JPEG, 1 = H.264.
    pub output_mode: i32,
    pub codec: Codec,
    pub video_crf: i32,
    pub video_paintover_crf: i32,
    pub video_paintover_burst_frames: i32,
    pub video_fullcolor: bool,
    pub video_fullframe: bool,
    pub video_streaming_mode: bool,
    pub capture_cursor: bool,
    /// Longest cursor edge the out-of-band cursor callback delivers (`<= 0` = uncapped).
    pub cursor_size_cap: i32,
    pub watermark_path: String,
    pub watermark_location_enum: i32,
    /// -1 = software, 0 and up = a device, below -1 = not chosen.
    pub encode_node_index: i32,
    pub use_cpu: bool,
    pub debug_logging: bool,
    pub auto_adjust_screen_capture_size: bool,
    pub recording_socket: String,
    /// Wayland display of an external compositor to capture; empty composites own clients.
    pub wayland_host_display: String,
    /// Encoders emit the raw payload without the per-stripe header.
    pub omit_stripe_headers: bool,
    pub video_cbr_mode: bool,
    pub video_bitrate_kbps: i32,
    /// CBR buffer size as thousandths of one frame's bit budget; `<= 0` selects the default.
    pub video_vbv_multiplier_milli: i32,
    /// Milliseconds between scheduled recovery keyframes; `<= 0` keeps the GOP infinite.
    pub keyframe_interval_ms: i64,
    pub video_min_qp: i32,
    pub video_max_qp: i32,
}

impl Clone for RustCaptureSettings {
    fn clone(&self) -> (s: Self)
        ensures
            s == *self,
    {
        RustCaptureSettings {
            width: self.width,
            height: self.height,
            scale_micro: self.scale_micro,
            capture_x: self.capture_x,
            capture_y: self.capture_y,
            target_fps_milli: self.target_fps_milli,
            jpeg_quality: self.jpeg_quality,
            paint_over_jpeg_quality: self.paint_over_jpeg_quality,
            use_paint_over_quality: self.use_paint_over_quality,
            paint_over_trigger_frames: self.paint_over_trigger_frames,
            damage_block_threshold: self.damage_block_threshold,
            damage_block_duration: self.damage_block_duration,
            output_mode: self.output_mode,
            codec: self.codec,
            video_crf: self.video_crf,
            video_paintover_crf: self.video_paintover_crf,
            video_paintover_burst_frames: self.video_paintover_burst_frames,
            video_fullcolor: self.video_fullcolor,
            video_fullframe: self.video_fullframe,
            video_streaming_mode: self.video_streaming_mode,
            capture_cursor: self.capture_cursor,
            cursor_size_cap: self.cursor_size_cap,
            watermark_path: self.watermark_path.clone(),
            watermark_location_enum: self.watermark_location_enum,
            encode_node_index: self.encode_node_index,
            use_cpu: self.use_cpu,
            debug_logging: self.debug_logging,
            auto_adjust_screen_capture_size: self.auto_adjust_screen_capture_size,
            recording_socket: self.recording_socket.clone(),
            wayland_host_display: self.wayland_host_display.clone(),
            omit_stripe_headers: self.omit_stripe_headers,
            video_cbr_mode: self.video_cbr_mode,
            video_bitrate_kbps: self.video_bitrate_kbps,
            video_vbv_multiplier_milli: self.video_vbv_multiplier_milli,
            keyframe_interval_ms: self.keyframe_interval_ms,
            video_min_qp: self.video_min_qp,
            video_max_qp: self.video_max_qp,
        }
    }
}

impl RustCaptureSettings {
    /// Settings that nothing was chosen of.
    pub open spec fn is_default(self) -> bool {
        &&& self.width == 1024
        &&& self.height == 768
        &&& self.scale_micro == UNIT_SCALE_MICRO
        &&& self.capture_x == 0
        &&& self.capture_y == 0
        &&& self.target_fps_milli == 60_000
        &&& self.jpeg_quality == 75
        &&& self.paint_over_jpeg_quality == 95
        &&& self.use_paint_over_quality
        &&& self.paint_over_trigger_frames == 15
        &&& self.damage_block_threshold == 10
        &&& self.damage_block_duration == 30
        &&& self.output_mode == 0
        &&& self.codec == Codec::Jpeg
        &&& self.video_crf == 25
        &&& self.video_paintover_crf == 18
        &&& self.video_paintover_burst_frames == 5
        &&& !self.video_fullcolor
        &&& !self.video_fullframe
        &&& !self.video_streaming_mode
        &&& !self.capture_cursor
        &&& self.cursor_size_cap == DEFAULT_CURSOR_CAP
        &&& self.watermark_path@ == Seq::<char>::empty()
        &&& self.watermark_location_enum == 0
        &&& self.encode_node_index == -2
        &&& !self.use_cpu
        &&& !self.debug_logging
        &&& !self.auto_adjust_screen_capture_size
        &&& self.recording_socket@ == Seq::<char>::empty()
        &&& self.wayland_host_display@ == Seq::<char>::empty()
        &&& !self.omit_stripe_headers
        &&& !self.video_cbr_mode
        &&& self.video_bitrate_kbps == 4000
        &&& self.video_vbv_multiplier_milli == 0
        &&& self.keyframe_interval_ms == 0
        &&& self.video_min_qp == 0
        &&& self.video_max_qp == 0
    }
}

impl Default for RustCaptureSettings {
    fn default() -> (s: Self)
        ensures
            s.is_default(),
    {
        RustCaptureSettings {
            width: 1024,
            height: 768,
            scale_micro: UNIT_SCALE_MICRO,
            capture_x: 0,
            capture_y: 0,
            target_fps_milli: 60_000,
            jpeg_quality: 75,
            paint_over_jpeg_quality: 95,
            use_paint_over_quality: true,
            paint_over_trigger_frames: 15,
            damage_block_threshold: 10,
            damage_block_duration: 30,
            output_mode: 0,
            codec: Codec::Jpeg,
            video_crf: 25,
            video_paintover_crf: 18,
            video_paintover_burst_frames: 5,
            video_fullcolor: false,
            video_fullframe: false,
            video_streaming_mode: false,
            capture_cursor: false,
            cursor_size_cap: DEFAULT_CURSOR_CAP,
            watermark_path: String::new(),
            watermark_location_enum: 0,
            encode_node_index: -2,
            use_cpu: false,
            debug_logging: false,
            auto_adjust_screen_capture_size: false,
            recording_socket: String::new(),
            wayland_host_display: String::new(),
            omit_stripe_headers: false,
            video_cbr_mode: false,
            video_bitrate_kbps: 4000,
            video_vbv_multiplier_milli: 0,
            keyframe_interval_ms: 0,
            video_min_qp: 0,
            video_max_qp: 0,
        }
    }
}

/// The per-frame decision and quality knobs every encoder re-reads from the settings on each
/// tick, so they retune a running capture with no encoder re-init. Structural switches (encoder,
/// chroma, rate-control mode, device) still need a capture restart.
#[derive(Clone, Copy, Debug, PartialEq, Eq, Structural)]
pub struct LiveTunables {
    pub jpeg_quality: i32,
    pub paint_over_jpeg_quality: i32,
    pub use_paint_over_quality: bool,
    pub paint_over_trigger_frames: u32,
    pub video_crf: i32,
    pub video_paintover_crf: i32,
    pub video_paintover_burst_frames: i32,
    pub video_streaming_mode: bool,
    pub keyframe_interval_ms: i64,
    pub capture_cursor: bool,
    pub cursor_size_cap: i32,
}

impl LiveTunables {
    /// The live-tunable subset of a settings value.
    pub open spec fn of(s: RustCaptureSettings) -> Self {
        LiveTunables {
            jpeg_quality: s.jpeg_quality,
            paint_over_jpeg_quality: s.paint_over_jpeg_quality,
            use_paint_over_quality: s.use_paint_over_quality,
            paint_over_trigger_frames: s.paint_over_trigger_frames,
            video_crf: s.video_crf,
            video_paintover_crf: s.video_paintover_crf,
            video_paintover_burst_frames: s.video_paintover_burst_frames,
            video_streaming_mode: s.video_streaming_mode,
            keyframe_interval_ms: s.keyframe_interval_ms,
            capture_cursor: s.capture_cursor,
            cursor_size_cap: s.cursor_size_cap,
        }
    }

    /// A settings value with these tunables in place of its own.
    pub open spec fn applied(self, s: RustCaptureSettings) -> RustCaptureSettings {
        RustCaptureSettings {
            jpeg_quality: self.jpeg_quality,
            paint_over_jpeg_quality: self.paint_over_jpeg_quality,
            use_paint_over_quality: self.use_paint_over_quality,
            paint_over_trigger_frames: self.paint_over_trigger_frames,
            video_crf: self.video_crf,
            video_paintover_crf: self.video_paintover_crf,
            video_paintover_burst_frames: self.video_paintover_burst_frames,
            video_streaming_mode: self.video_streaming_mode,
            keyframe_interval_ms: self.keyframe_interval_ms,
            capture_cursor: self.capture_cursor,
            cursor_size_cap: self.cursor_size_cap,
            ..s
        }
    }

    /// Snapshot the live-tunable subset out of a full settings value.
    pub fn from_settings(s: &RustCaptureSettings) -> (t: Self)
        ensures
            t == LiveTunables::of(*s),
    {
        LiveTunables {
            jpeg_quality: s.jpeg_quality,
            paint_over_jpeg_quality: s.paint_over_jpeg_quality,
            use_paint_over_quality: s.use_paint_over_quality,
            paint_over_trigger_frames: s.paint_over_trigger_frames,
            video_crf: s.video_crf,
            video_paintover_crf: s.video_paintover_crf,
            video_paintover_burst_frames: s.video_paintover_burst_frames,
            video_streaming_mode: s.video_streaming_mode,
            keyframe_interval_ms: s.keyframe_interval_ms,
            capture_cursor: s.capture_cursor,
            cursor_size_cap: s.cursor_size_cap,
        }
    }

    /// Write these live tunables back into a full settings value in place.
    pub fn apply_to(&self, s: &mut RustCaptureSettings)
        ensures
            *final(s) == self.applied(*old(s)),
    {
        s.jpeg_quality = self.jpeg_quality;
        s.paint_over_jpeg_quality = self.paint_over_jpeg_quality;
        s.use_paint_over_quality = self.use_paint_over_quality;
        s.paint_over_trigger_frames = self.paint_over_trigger_frames;
        s.video_crf = self.video_crf;
        s.video_paintover_crf = self.video_paintover_crf;
        s.video_paintover_burst_frames = self.video_paintover_burst_frames;
        s.video_streaming_mode = self.video_streaming_mode;
        s.keyframe_interval_ms = self.keyframe_interval_ms;
        s.cursor_size_cap = self.cursor_size_cap;
        s.capture_cursor = self.capture_cursor;
    }
}

/// Tunables applied to a settings value are the ones read back from it; applying a value's own
/// tunables changes nothing.
pub proof fn tunables_round_trip(t: LiveTunables, s: RustCaptureSettings)
    ensures
        LiveTunables::of(t.applied(s)) == t,
        LiveTunables::of(s).applied(s) == s,
{
}

/// A real number as a caller gave it: in whole parts of one, thousandths of a rate and millionths of
/// a scale, or not a finite number at all.
#[derive(Clone, Copy, Debug, PartialEq, Eq, Structural)]
pub enum Fixed {
    Finite(i64),
    NotFinite,
}

/// A capture extent kept within bounds; nothing for one that is not positive.
pub open spec fn bounded_dim(v: i32) -> i32 {
    if v <= 0 {
        0
    } else if v <= MAX_CAPTURE_DIM {
        v
    } else {
        MAX_CAPTURE_DIM
    }
}

/// A quality within the JPEG encoder's range.
pub open spec fn bounded_quality(v: i32) -> i32 {
    if v < 1 {
        1
    } else if v > 100 {
        100
    } else {
        v
    }
}

/// A positive number up to `most`, or `fallback` for any other.
pub open spec fn bounded_number(v: Fixed, most: u32, fallback: u32) -> u32 {
    match v {
        Fixed::Finite(n) => if n <= 0 {
            fallback
        } else if n <= most {
            n as u32
        } else {
            most
        },
        Fixed::NotFinite => fallback,
    }
}

pub fn sanitize_dim(v: i32) -> (r: i32)
    ensures
        r == bounded_dim(v),
{
    if v <= 0 {
        0
    } else if v <= MAX_CAPTURE_DIM {
        v
    } else {
        MAX_CAPTURE_DIM
    }
}

pub fn sanitize_quality(v: i32) -> (r: i32)
    ensures
        r == bounded_quality(v),
{
    if v < 1 {
        1
    } else if v > 100 {
        100
    } else {
        v
    }
}

fn sanitize_number(v: Fixed, most: u32, fallback: u32) -> (r: u32)
    ensures
        r == bounded_number(v, most, fallback),
{
    match v {
        Fixed::Finite(n) => if n <= 0 {
            fallback
        } else if n <= most as i64 {
            n as u32
        } else {
            most
        },
        Fixed::NotFinite => fallback,
    }
}

/// The frame rate a setting asks for, in thousandths: at most a thousand a second, and sixty where it gives no
/// positive number.
pub fn sanitize_fps(v: Fixed) -> (r: u32)
    ensures
        r == bounded_number(v, MAX_FPS_MILLI, DEFAULT_FPS_MILLI),
{
    sanitize_number(v, MAX_FPS_MILLI, DEFAULT_FPS_MILLI)
}

/// The scale a setting asks for, in millionths: at most eight, and one where it gives no positive
/// number.
pub fn sanitize_scale(v: Fixed) -> (r: u32)
    ensures
        r == bounded_number(v, MAX_SCALE_MICRO, UNIT_SCALE_MICRO),
{
    sanitize_number(v, MAX_SCALE_MICRO, UNIT_SCALE_MICRO)
}

/// A settings object's attributes as they were read: the required ones plain, the ones an older
/// caller may lack optional.
#[derive(Debug)]
pub struct RawSettings {
    pub watermark_path: Option<String>,
    pub scale: Option<Fixed>,
    pub capture_width: i32,
    pub capture_height: i32,
    pub capture_x: i32,
    pub capture_y: i32,
    pub target_fps: Fixed,
    pub jpeg_quality: i32,
    pub paint_over_jpeg_quality: i32,
    pub use_paint_over_quality: bool,
    pub paint_over_trigger_frames: u32,
    pub damage_block_threshold: u32,
    pub damage_block_duration: u32,
    pub output_mode: i32,
    pub video_crf: i32,
    pub video_paintover_crf: i32,
    pub video_paintover_burst_frames: i32,
    pub video_fullcolor: bool,
    pub video_fullframe: bool,
    pub video_streaming_mode: bool,
    pub capture_cursor: bool,
    pub cursor_size_cap: Option<i32>,
    pub watermark_location_enum: i32,
    pub encode_node_index: i32,
    pub use_cpu: bool,
    pub debug_logging: bool,
    pub auto_adjust_screen_capture_size: Option<bool>,
    pub recording_socket: Option<String>,
    pub wayland_host_display: Option<String>,
    pub omit_stripe_headers: Option<bool>,
    pub video_cbr_mode: bool,
    pub video_bitrate_kbps: i32,
    pub video_vbv_multiplier_milli: Option<i32>,
    pub keyframe_interval_ms: Option<i64>,
    pub video_min_qp: Option<i32>,
    pub video_max_qp: Option<i32>,
}

/// What an optional value stands for where it is absent.
pub open spec fn or_else<T>(v: Option<T>, fallback: T) -> T {
    match v {
        Some(x) => x,
        None => fallback,
    }
}

/// A text's characters, none where it is absent.
pub open spec fn text_or_empty(v: Option<String>) -> Seq<char> {
    match v {
        Some(s) => s@,
        None => Seq::empty(),
    }
}

fn text_or_default(v: Option<String>) -> (s: String)
    ensures
        s@ == text_or_empty(v),
{
    match v {
        Some(s) => s,
        None => String::new(),
    }
}

/// Settings out of the attributes a caller's object carries.
///
/// Attributes any caller can set to anything are brought within bounds here: a dimension that
/// would size an absurd frame buffer, a quality outside the JPEG encoder's range, a frame rate or
/// scale that is no positive number. Newer attributes fall back to a default when absent, so a
/// caller built against an older schema still starts.
pub fn extract_settings(raw: RawSettings) -> (s: RustCaptureSettings)
    ensures
        s.width == bounded_dim(raw.capture_width),
        s.height == bounded_dim(raw.capture_height),
        s.scale_micro == bounded_number(
            or_else(raw.scale, Fixed::Finite(UNIT_SCALE_MICRO as i64)),
            MAX_SCALE_MICRO,
            UNIT_SCALE_MICRO,
        ),
        s.capture_x == raw.capture_x,
        s.capture_y == raw.capture_y,
        s.target_fps_milli == bounded_number(raw.target_fps, MAX_FPS_MILLI, DEFAULT_FPS_MILLI),
        s.jpeg_quality == bounded_quality(raw.jpeg_quality),
        s.paint_over_jpeg_quality == bounded_quality(raw.paint_over_jpeg_quality),
        s.use_paint_over_quality == raw.use_paint_over_quality,
        s.paint_over_trigger_frames == raw.paint_over_trigger_frames,
        s.damage_block_threshold == raw.damage_block_threshold,
        s.damage_block_duration == raw.damage_block_duration,
        s.output_mode == raw.output_mode,
        s.codec == if raw.output_mode == 1 {
            Codec::H264
        } else {
            Codec::Jpeg
        },
        s.video_crf == raw.video_crf,
        s.video_paintover_crf == raw.video_paintover_crf,
        s.video_paintover_burst_frames == raw.video_paintover_burst_frames,
        s.video_fullcolor == raw.video_fullcolor,
        s.video_fullframe == raw.video_fullframe,
        s.video_streaming_mode == raw.video_streaming_mode,
        s.capture_cursor == raw.capture_cursor,
        s.cursor_size_cap == or_else(raw.cursor_size_cap, DEFAULT_CURSOR_CAP),
        s.watermark_path@ == text_or_empty(raw.watermark_path),
        s.watermark_location_enum == raw.watermark_location_enum,
        s.encode_node_index == raw.encode_node_index,
        s.use_cpu == raw.use_cpu,
        s.debug_logging == raw.debug_logging,
        s.auto_adjust_screen_capture_size == or_else(raw.auto_adjust_screen_capture_size, false),
        s.recording_socket@ == text_or_empty(raw.recording_socket),
        s.wayland_host_display@ == text_or_empty(raw.wayland_host_display),
        s.omit_stripe_headers == or_else(raw.omit_stripe_headers, false),
        s.video_cbr_mode == raw.video_cbr_mode,
        s.video_bitrate_kbps == raw.video_bitrate_kbps,
        s.video_vbv_multiplier_milli == or_else(raw.video_vbv_multiplier_milli, 0),
        s.keyframe_interval_ms == or_else(raw.keyframe_interval_ms, 0),
        s.video_min_qp == or_else(raw.video_min_qp, 0),
        s.video_max_qp == or_else(raw.video_max_qp, 0),
{
    RustCaptureSettings {
        width: sanitize_dim(raw.capture_width),
        height: sanitize_dim(raw.capture_height),
        scale_micro: sanitize_scale(raw.scale.unwrap_or(Fixed::Finite(UNIT_SCALE_MICRO as i64))),
        capture_x: raw.capture_x,
        capture_y: raw.capture_y,
        target_fps_milli: sanitize_fps(raw.target_fps),
        jpeg_quality: sanitize_quality(raw.jpeg_quality),
        paint_over_jpeg_quality: sanitize_quality(raw.paint_over_jpeg_quality),
        use_paint_over_quality: raw.use_paint_over_quality,
        paint_over_trigger_frames: raw.paint_over_trigger_frames,
        damage_block_threshold: raw.damage_block_threshold,
        damage_block_duration: raw.damage_block_duration,
        output_mode: raw.output_mode,
        codec: if raw.output_mode == 1 {
            Codec::H264
        } else {
            Codec::Jpeg
        },
        video_crf: raw.video_crf,
        video_paintover_crf: raw.video_paintover_crf,
        video_paintover_burst_frames: raw.video_paintover_burst_frames,
        video_fullcolor: raw.video_fullcolor,
        video_fullframe: raw.video_fullframe,
        video_streaming_mode: raw.video_streaming_mode,
        capture_cursor: raw.capture_cursor,
        cursor_size_cap: raw.cursor_size_cap.unwrap_or(DEFAULT_CURSOR_CAP),
        watermark_path: text_or_default(raw.watermark_path),
        watermark_location_enum: raw.watermark_location_enum,
        encode_node_index: raw.encode_node_index,
        use_cpu: raw.use_cpu,
        debug_logging: raw.debug_logging,
        auto_adjust_screen_capture_size: raw.auto_adjust_screen_capture_size.unwrap_or(false),
        recording_socket: text_or_default(raw.recording_socket),
        wayland_host_display: text_or_default(raw.wayland_host_display),
        omit_stripe_headers: raw.omit_stripe_headers.unwrap_or(false),
        video_cbr_mode: raw.video_cbr_mode,
        video_bitrate_kbps: raw.video_bitrate_kbps,
        video_vbv_multiplier_milli: raw.video_vbv_multiplier_milli.unwrap_or(0),
        keyframe_interval_ms: raw.keyframe_interval_ms.unwrap_or(0),
        video_min_qp: raw.video_min_qp.unwrap_or(0),
        video_max_qp: raw.video_max_qp.unwrap_or(0),
    }
}

} // verus!
