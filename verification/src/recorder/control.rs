//! The recorder's control: whether a recording may start, what feeds it, which frames it takes,
//! when it asks for a keyframe, and what it tells of itself.

use vstd::prelude::*;
use vstd::string::*;
use crate::command::OutputDesc;
use crate::encoders::{Codec, EncodedStripe, DATA_TYPE_H264};
use crate::recording_sink;
use crate::recording_sink::payload_offset;
use crate::session::CaptureBook;
use crate::settings::RustCaptureSettings;
use crate::text;
use crate::text::append_unsigned;

verus! {

broadcast use vstd::std_specs::hash::group_hash_axioms;

/// How many frames wait for the writer: one that falls this far behind loses frames instead of
/// growing memory or blocking the encoder.
pub const QUEUE_CAP: usize = 256;

/// The frame rate of a recording that gives none, in thousandths.
pub const DEFAULT_RECORD_FPS_MILLI: u32 = 30_000;

/// The time between recovery keyframes of a recording that gives none, in milliseconds.
pub const DEFAULT_KEYFRAME_MS: i64 = 2_000;

/// Which capture system feeds the recording.
#[derive(Clone, Copy, Debug, PartialEq, Eq, Structural)]
pub enum PreferredBackend {
    X11,
    Wayland,
}

impl PreferredBackend {
    /// The backend's name.
    pub open spec fn text(self) -> Seq<char> {
        match self {
            PreferredBackend::X11 => "x11"@,
            PreferredBackend::Wayland => "wayland"@,
        }
    }

    pub fn name(self) -> (s: &'static str)
        ensures
            s@ == self.text(),
    {
        match self {
            PreferredBackend::X11 => "x11",
            PreferredBackend::Wayland => "wayland",
        }
    }
}

/// The recording variables of the environment, each as far as it is set and a number.
pub struct RecordEnv {
    pub display: Option<u32>,
    pub fps_milli: Option<u32>,
    pub bitrate_kbps: Option<i32>,
    pub keyframe_interval_ms: Option<i64>,
    pub backend: Option<String>,
}

/// Resolved recording parameters.
pub struct RecordOptions {
    pub path: String,
    pub display_id: u32,
    /// Capture rate of a recorder-owned capture in thousandths (0 = the default). An attached
    /// recording follows the live session's rate.
    pub fps_milli: u32,
    /// Bitrate of a recorder-owned capture in kbps (`<= 0` = as its settings have it).
    pub bitrate_kbps: i32,
    /// Time between recovery keyframes in milliseconds (`<= 0` = the default).
    pub keyframe_interval_ms: i64,
    pub backend: Option<PreferredBackend>,
    /// Full settings for a recorder-owned capture; without them they are derived.
    pub capture: Option<RustCaptureSettings>,
}

/// The backend that a variable names.
pub open spec fn named_backend(name: Option<String>) -> Option<PreferredBackend> {
    match name {
        Some(n) => if n@ == "x11"@ {
            Some(PreferredBackend::X11)
        } else if n@ == "wayland"@ {
            Some(PreferredBackend::Wayland)
        } else {
            None
        },
        None => None,
    }
}

fn is_named(name: &str, other: &str) -> (b: bool)
    ensures
        b == (name@ == other@),
{
    let a = text::chars_of(name);
    let c = text::chars_of(other);
    text::same(a.as_slice(), c.as_slice())
}

impl RecordOptions {
    /// Options that the environment alone gives.
    pub fn from_env(path: String, env: &RecordEnv) -> (o: RecordOptions)
        ensures
            o.path == path,
            o.display_id == env.display.unwrap_or(0),
            o.fps_milli == env.fps_milli.unwrap_or(0),
            o.bitrate_kbps == env.bitrate_kbps.unwrap_or(0),
            o.keyframe_interval_ms == env.keyframe_interval_ms.unwrap_or(0),
            o.backend == named_backend(env.backend),
            o.capture is None,
    {
        let backend = match &env.backend {
            Some(n) => if is_named(n.as_str(), "x11") {
                Some(PreferredBackend::X11)
            } else if is_named(n.as_str(), "wayland") {
                Some(PreferredBackend::Wayland)
            } else {
                None
            },
            None => None,
        };
        RecordOptions {
            path,
            display_id: env.display.unwrap_or(0),
            fps_milli: env.fps_milli.unwrap_or(0),
            bitrate_kbps: env.bitrate_kbps.unwrap_or(0),
            keyframe_interval_ms: env.keyframe_interval_ms.unwrap_or(0),
            backend,
            capture: None,
        }
    }

    /// Options with explicit settings, which are authoritative over the variables they subsume:
    /// only H.264 settings can be recorded with.
    pub fn with_settings(
        self,
        settings: RustCaptureSettings,
        display_id: u32,
        use_wayland: Option<bool>,
    ) -> (r: Result<RecordOptions, String>)
        ensures
            r is Ok <==> settings.output_mode == 1,
            r matches Ok(o) ==> o == (RecordOptions {
                display_id,
                fps_milli: 0,
                bitrate_kbps: 0,
                backend: match use_wayland {
                    Some(true) => Some(PreferredBackend::Wayland),
                    Some(false) => Some(PreferredBackend::X11),
                    None => self.backend,
                },
                capture: Some(settings),
                ..self
            }),
            r matches Err(e) ==> e@ == not_h264(),
    {
        if settings.output_mode != 1 {
            return Err(not_h264_text());
        }
        let backend = match use_wayland {
            Some(true) => Some(PreferredBackend::Wayland),
            Some(false) => Some(PreferredBackend::X11),
            None => self.backend,
        };
        Ok(
            RecordOptions {
                display_id,
                fps_milli: 0,
                bitrate_kbps: 0,
                backend,
                capture: Some(settings),
                ..self
            },
        )
    }

    /// The rate of a recorder-owned capture that has no settings of its own.
    pub open spec fn fps(self) -> u32 {
        if self.fps_milli > 0 {
            self.fps_milli
        } else {
            DEFAULT_RECORD_FPS_MILLI
        }
    }

    pub fn effective_fps(&self) -> (f: u32)
        ensures
            f == self.fps(),
    {
        if self.fps_milli > 0 {
            self.fps_milli
        } else {
            DEFAULT_RECORD_FPS_MILLI
        }
    }

    /// The time between recovery keyframes.
    pub open spec fn keyframe_ms(self) -> i64 {
        if self.keyframe_interval_ms > 0 {
            self.keyframe_interval_ms
        } else {
            DEFAULT_KEYFRAME_MS
        }
    }

    pub fn effective_keyframe_ms(&self) -> (k: i64)
        ensures
            k == self.keyframe_ms(),
            k > 0,
    {
        if self.keyframe_interval_ms > 0 {
            self.keyframe_interval_ms
        } else {
            DEFAULT_KEYFRAME_MS
        }
    }
}

/// Why settings that are not H.264 are refused.
pub open spec fn not_h264() -> Seq<char> {
    "recording requires H.264 capture settings (output_mode=1); JPEG cannot be recorded"@
}

fn not_h264_text() -> (s: String)
    ensures
        s@ == not_h264(),
{
    "recording requires H.264 capture settings (output_mode=1); JPEG cannot be recorded".to_owned()
}

/// Settings forced to the one shape that can be recorded: full-frame H.264, with the options' rate
/// and bitrate where they give any, and scheduled recovery keyframes.
pub open spec fn recordable(s: RustCaptureSettings, o: RecordOptions) -> RustCaptureSettings {
    RustCaptureSettings {
        video_fullframe: true,
        target_fps_milli: if o.fps_milli > 0 {
            o.fps_milli
        } else {
            s.target_fps_milli
        },
        video_bitrate_kbps: if o.bitrate_kbps > 0 {
            o.bitrate_kbps
        } else {
            s.video_bitrate_kbps
        },
        keyframe_interval_ms: if s.keyframe_interval_ms <= 0 {
            o.keyframe_ms()
        } else {
            s.keyframe_interval_ms
        },
        ..s
    }
}

/// Default settings made a recording's: H.264 of the full screen, with the cursor.
pub open spec fn derived(d: RustCaptureSettings, o: RecordOptions) -> RustCaptureSettings {
    RustCaptureSettings {
        width: 0,
        height: 0,
        output_mode: 1,
        capture_cursor: true,
        target_fps_milli: o.fps(),
        ..d
    }
}

/// Equal but for the recording socket.
pub open spec fn same_but_socket(a: RustCaptureSettings, b: RustCaptureSettings) -> bool {
    RustCaptureSettings { recording_socket: b.recording_socket, ..a } == b
}

/// What a recorder-owned capture runs with.
pub open spec fn own_settings(s: RustCaptureSettings, o: RecordOptions) -> bool {
    &&& s.recording_socket@ == Seq::<char>::empty()
    &&& match o.capture {
        Some(explicit) => same_but_socket(s, recordable(explicit, o)),
        None => exists|d: RustCaptureSettings| #[trigger]
            d.is_default() && same_but_socket(s, recordable(derived(d, o), o)),
    }
}

/// The settings of a recorder-owned capture; explicit ones that are not H.264 are refused.
pub fn own_capture_settings(opts: &RecordOptions) -> (r: Result<RustCaptureSettings, String>)
    ensures
        r is Err <==> (opts.capture matches Some(c) && c.output_mode != 1),
        r matches Ok(s) ==> own_settings(s, *opts),
        r matches Err(e) ==> e@ == not_h264(),
{
    let ghost mut base: RustCaptureSettings;
    let mut s = match &opts.capture {
        Some(explicit) => {
            if explicit.output_mode != 1 {
                return Err(not_h264_text());
            }
            explicit.clone()
        },
        None => {
            let mut d = RustCaptureSettings::default();
            proof {
                base = d;
            }
            d.width = 0;
            d.height = 0;
            d.output_mode = 1;
            d.capture_cursor = true;
            d.target_fps_milli = opts.effective_fps();
            assert(base.is_default());
            assert(d == derived(base, *opts));
            d
        },
    };
    let ghost start = s;
    s.video_fullframe = true;
    s.recording_socket = String::new();
    if opts.fps_milli > 0 {
        s.target_fps_milli = opts.fps_milli;
    }
    if opts.bitrate_kbps > 0 {
        s.video_bitrate_kbps = opts.bitrate_kbps;
    }
    if s.keyframe_interval_ms <= 0 {
        s.keyframe_interval_ms = opts.effective_keyframe_ms();
    }
    assert(same_but_socket(s, recordable(start, *opts)));
    Ok(s)
}

/// A recorder-owned capture is always full-frame H.264, has no recording socket of its own and
/// schedules its recovery keyframes.
pub proof fn own_captures_can_be_recorded(s: RustCaptureSettings, o: RecordOptions)
    requires
        own_settings(s, o),
        o.capture matches Some(c) ==> c.output_mode == 1,
    ensures
        s.output_mode == 1,
        s.video_fullframe,
        s.keyframe_interval_ms > 0,
        s.recording_socket@.len() == 0,
        o.fps_milli > 0 ==> s.target_fps_milli == o.fps_milli,
        o.bitrate_kbps > 0 ==> s.video_bitrate_kbps == o.bitrate_kbps,
{
    match o.capture {
        Some(c) => {
            assert(same_but_socket(s, recordable(c, o)));
        },
        None => {
            let d = choose|d: RustCaptureSettings| #[trigger]
                d.is_default() && same_but_socket(s, recordable(derived(d, o), o));
            assert(same_but_socket(s, recordable(derived(d, o), o)));
        },
    }
}

/// One more, past the end from the start again.
pub open spec fn counted(n: u64) -> u64 {
    if n == u64::MAX {
        0
    } else {
        (n + 1) as u64
    }
}

fn count(n: u64) -> (r: u64)
    ensures
        r == counted(n),
{
    if n == u64::MAX {
        0
    } else {
        n + 1
    }
}

/// Counters of the recording, shared between what feeds it, the writer and the status.
pub struct RecShared {
    pub enqueued: u64,
    pub dropped: u64,
    pub skipped_non_h264: u64,
    pub muxed: u64,
    pub sync_frames: u64,
    pub bytes: u64,
    pub width: u32,
    pub height: u32,
    /// When the last keyframe was asked for, in microseconds of the recording.
    pub last_idr_req_us: u64,
    pub error: Option<String>,
}

/// What becomes of a delivered frame.
#[derive(Clone, Copy, Debug, PartialEq, Eq, Structural)]
pub enum Offer {
    /// Nothing was delivered.
    Nothing,
    /// It cannot be recorded.
    Skipped,
    /// Its stream, from this byte on, is queued.
    Frame(usize),
}

/// What became of a frame that was to be queued.
#[derive(Clone, Copy, Debug, PartialEq, Eq, Structural)]
pub enum Sent {
    Queued,
    Full,
    Closed,
}

/// A delivery holds one H.264 stripe that covers a frame of this height.
pub open spec fn whole_h264(stripes: Seq<EncodedStripe>, full_height: i32) -> bool {
    &&& stripes.len() == 1
    &&& stripes[0].data_type == DATA_TYPE_H264
    &&& stripes[0].codec == Codec::H264
    &&& stripes[0].stripe_y_start == 0
    &&& stripes[0].stripe_height == full_height
}

/// What becomes of a delivery.
pub open spec fn offer_of(stripes: Seq<EncodedStripe>, full_height: i32) -> Offer {
    if stripes.len() == 0 {
        Offer::Nothing
    } else if !whole_h264(stripes, full_height) {
        Offer::Skipped
    } else if stripes[0].data@.len() == recording_sink::stream_offset(stripes[0].data@) {
        Offer::Nothing
    } else {
        Offer::Frame(recording_sink::stream_offset(stripes[0].data@) as usize)
    }
}

/// A keyframe is due: one is asked for at all, and the time between two has passed.
pub open spec fn idr_due(interval_us: u64, last_us: u64, now_us: u64) -> bool {
    interval_us > 0 && now_us >= last_us && now_us - last_us >= interval_us
}

impl RecShared {
    /// A recording that nothing happened in.
    pub open spec fn fresh(self) -> bool {
        &&& self.enqueued == 0
        &&& self.dropped == 0
        &&& self.skipped_non_h264 == 0
        &&& self.muxed == 0
        &&& self.sync_frames == 0
        &&& self.bytes == 0
        &&& self.width == 0
        &&& self.height == 0
        &&& self.last_idr_req_us == 0
        &&& self.error is None
    }

    pub fn new() -> (s: RecShared)
        ensures
            s.fresh(),
    {
        RecShared {
            enqueued: 0,
            dropped: 0,
            skipped_non_h264: 0,
            muxed: 0,
            sync_frames: 0,
            bytes: 0,
            width: 0,
            height: 0,
            last_idr_req_us: 0,
            error: None,
        }
    }

    /// The state with an error: the first one stays.
    pub open spec fn failed(self, msg: String) -> RecShared {
        RecShared {
            error: if self.error is Some {
                self.error
            } else {
                Some(msg)
            },
            ..self
        }
    }

    /// Note why the recording failed; the first reason stays. Tells whether this was it.
    pub fn set_error(&mut self, msg: String) -> (first: bool)
        ensures
            *final(self) == old(self).failed(msg),
            first == (old(self).error is None),
    {
        if self.error.is_none() {
            self.error = Some(msg);
            true
        } else {
            false
        }
    }

    /// Take a delivered frame: only a single full-frame H.264 stripe can be recorded; anything else
    /// is counted, so that "nothing recordable" can be told instead of writing a corrupt file.
    pub fn offer_frame(&mut self, stripes: &[EncodedStripe], full_height: i32) -> (o: Offer)
        ensures
            o == offer_of(stripes@, full_height),
            *final(self) == (RecShared {
                skipped_non_h264: if o is Skipped {
                    counted(old(self).skipped_non_h264)
                } else {
                    old(self).skipped_non_h264
                },
                ..*old(self)
            }),
            o matches Offer::Frame(at) ==> at < stripes@[0].data@.len(),
    {
        if stripes.len() == 0 {
            return Offer::Nothing;
        }
        if stripes.len() != 1 || stripes[0].data_type != DATA_TYPE_H264
            || stripes[0].codec != Codec::H264 || stripes[0].stripe_y_start != 0
            || stripes[0].stripe_height != full_height {
            self.skipped_non_h264 = count(self.skipped_non_h264);
            return Offer::Skipped;
        }
        let data: &Vec<u8> = &stripes[0].data;
        let offset: usize = payload_offset(data.as_slice());
        if data.len() == offset {
            return Offer::Nothing;
        }
        Offer::Frame(offset)
    }

    /// A frame was handed to the queue.
    pub fn frame_sent(&mut self, sent: Sent)
        ensures
            *final(self) == (RecShared {
                enqueued: if sent is Queued {
                    counted(old(self).enqueued)
                } else {
                    old(self).enqueued
                },
                dropped: if sent is Full {
                    counted(old(self).dropped)
                } else {
                    old(self).dropped
                },
                ..*old(self)
            }),
    {
        match sent {
            Sent::Queued => {
                self.enqueued = count(self.enqueued);
            },
            Sent::Full => {
                self.dropped = count(self.dropped);
            },
            Sent::Closed => {},
        }
    }

    /// Ask for a keyframe when the time between two has passed.
    pub fn pace_idr_requests(&mut self, interval_us: u64, now_us: u64) -> (ask: bool)
        ensures
            ask == idr_due(interval_us, old(self).last_idr_req_us, now_us),
            *final(self) == (RecShared {
                last_idr_req_us: if ask {
                    now_us
                } else {
                    old(self).last_idr_req_us
                },
                ..*old(self)
            }),
    {
        if interval_us == 0 {
            return false;
        }
        if now_us >= self.last_idr_req_us && now_us - self.last_idr_req_us >= interval_us {
            self.last_idr_req_us = now_us;
            true
        } else {
            false
        }
    }
}

/// The first error stays, whatever fails after it.
pub proof fn first_error_stays(s: RecShared, a: String, b: String)
    requires
        s.error is None,
    ensures
        s.failed(a).failed(b) == s.failed(a),
        s.failed(a).error == Some(a),
{
}

/// Two keyframes are asked for no closer together than the time between two.
pub proof fn requests_keep_their_distance(
    interval_us: u64,
    last_us: u64,
    first_us: u64,
    second_us: u64,
)
    requires
        idr_due(interval_us, last_us, first_us),
        idr_due(interval_us, first_us, second_us),
    ensures
        second_us >= first_us + interval_us,
        forall|t: u64|
            first_us <= t < first_us + interval_us ==> !(#[trigger] idr_due(
                interval_us,
                first_us,
                t,
            )),
{
}

/// The delivery tap of a Wayland recording.
#[derive(Clone, Copy, Debug, PartialEq, Eq, Structural)]
pub struct WlTap {
    pub display_id: u32,
    /// The recording taps a streaming client's capture and asks for its keyframes itself.
    pub attached: bool,
    pub keyframe_interval_us: u64,
}

/// How the active recording is fed, and what must be torn down when it stops.
#[derive(Clone, Copy, Debug, PartialEq, Eq, Structural)]
pub enum RecordingMode {
    /// A capture of the X11 root of its own.
    X11Own,
    /// A capture of a Wayland output of its own, stopped unless a streaming client has taken the
    /// display since.
    WaylandOwn { display_id: u32 },
    /// A tap on a streaming client's capture; there is nothing to stop.
    WaylandAttached,
}

impl RecordingMode {
    /// What feeds the recording, and whether it is its own.
    pub open spec fn texts(self) -> (Seq<char>, Seq<char>) {
        match self {
            RecordingMode::X11Own => ("x11"@, "own-capture"@),
            RecordingMode::WaylandOwn { .. } => ("wayland"@, "own-capture"@),
            RecordingMode::WaylandAttached => ("wayland"@, "attached"@),
        }
    }

    pub fn names(self) -> (r: (&'static str, &'static str))
        ensures
            (r.0@, r.1@) == self.texts(),
    {
        match self {
            RecordingMode::X11Own => ("x11", "own-capture"),
            RecordingMode::WaylandOwn { .. } => ("wayland", "own-capture"),
            RecordingMode::WaylandAttached => ("wayland", "attached"),
        }
    }
}

/// The recorder as it stands at one moment.
pub struct RecordingStatus {
    pub active: bool,
    pub path: String,
    pub backend: &'static str,
    pub mode: &'static str,
    pub frames: u64,
    pub sync_frames: u64,
    pub dropped: u64,
    pub skipped_non_h264: u64,
    pub bytes: u64,
    pub duration_us: u64,
    pub width: u32,
    pub height: u32,
    pub error: Option<String>,
}

fn clone_text(s: &Option<String>) -> (r: Option<String>)
    ensures
        r == *s,
{
    match s {
        Some(t) => Some(t.clone()),
        None => None,
    }
}

impl Clone for RecordingStatus {
    fn clone(&self) -> (s: Self)
        ensures
            s == *self,
    {
        RecordingStatus {
            active: self.active,
            path: self.path.clone(),
            backend: self.backend,
            mode: self.mode,
            frames: self.frames,
            sync_frames: self.sync_frames,
            dropped: self.dropped,
            skipped_non_h264: self.skipped_non_h264,
            bytes: self.bytes,
            duration_us: self.duration_us,
            width: self.width,
            height: self.height,
            error: clone_text(&self.error),
        }
    }
}

/// A recording that runs.
pub struct ActiveRecording {
    pub path: String,
    pub mode: RecordingMode,
}

/// The recorder of a process: one recording at most.
pub struct Recorder {
    pub active: Option<ActiveRecording>,
    pub last_finished: Option<RecordingStatus>,
    pub tap: Option<WlTap>,
    pub shared: RecShared,
}

/// Why no recording starts.
pub open spec fn start_refusal(
    active: bool,
    o: RecordOptions,
    wayland_up: bool,
    x11_up: bool,
) -> Option<Seq<char>> {
    if active {
        Some("a recording is already active"@)
    } else if o.path@.len() == 0 {
        Some("recording path is empty"@)
    } else if o.capture matches Some(c) && c.output_mode != 1 {
        Some(not_h264())
    } else if o.backend == Some(PreferredBackend::Wayland) && !wayland_up {
        Some("no Wayland compositor is running in this process"@)
    } else if o.backend is None && !wayland_up && !x11_up {
        Some(
            "no capture backend available: no in-process Wayland compositor and DISPLAY is unset"@,
        )
    } else {
        None
    }
}

/// What a recording that may start is captured from.
pub open spec fn chosen_backend(o: RecordOptions, wayland_up: bool) -> PreferredBackend {
    match o.backend {
        Some(b) => b,
        None => if wayland_up {
            PreferredBackend::Wayland
        } else {
            PreferredBackend::X11
        },
    }
}

/// The first listed output from the `i`th on with this number.
pub open spec fn output_from(outputs: Seq<OutputDesc>, id: u32, i: int) -> Option<int>
    decreases outputs.len() - i,
{
    if i >= outputs.len() {
        None
    } else if outputs[i].id == id {
        Some(i)
    } else {
        output_from(outputs, id, i + 1)
    }
}

/// What stopping the recording has to tear down.
#[derive(Clone, Copy, Debug, PartialEq, Eq, Structural)]
pub enum Teardown {
    Nothing,
    X11,
    Wayland(u32),
}

impl Recorder {
    pub fn new() -> (r: Recorder)
        ensures
            r.active is None,
            r.last_finished is None,
            r.tap is None,
            r.shared.fresh(),
    {
        Recorder { active: None, last_finished: None, tap: None, shared: RecShared::new() }
    }

    /// A frame of this height was delivered for a display. Tells what becomes of it and whether a keyframe is to
    /// be asked for.
    pub fn wayland_tap(
        &mut self,
        display_id: u32,
        stripes: &[EncodedStripe],
        full_height: i32,
        now_us: u64,
    ) -> (r: (Offer, bool))
        ensures
            final(self).active == old(self).active,
            final(self).last_finished == old(self).last_finished,
            final(self).tap == old(self).tap,
            match old(self).tap {
                Some(t) => if t.display_id == display_id {
                    &&& r.0 == offer_of(stripes@, full_height)
                    &&& r.1 == (t.attached && idr_due(
                        t.keyframe_interval_us,
                        old(self).shared.last_idr_req_us,
                        now_us,
                    ))
                    &&& final(self).shared == (RecShared {
                        skipped_non_h264: if r.0 is Skipped {
                            counted(old(self).shared.skipped_non_h264)
                        } else {
                            old(self).shared.skipped_non_h264
                        },
                        last_idr_req_us: if r.1 {
                            now_us
                        } else {
                            old(self).shared.last_idr_req_us
                        },
                        ..old(self).shared
                    })
                } else {
                    r == (Offer::Nothing, false) && final(self).shared == old(self).shared
                },
                None => r == (Offer::Nothing, false) && final(self).shared == old(self).shared,
            },
    {
        match self.tap {
            Some(t) => {
                if t.display_id != display_id {
                    return (Offer::Nothing, false);
                }
                let offer = self.shared.offer_frame(stripes, full_height);
                let ask = if t.attached {
                    self.shared.pace_idr_requests(t.keyframe_interval_us, now_us)
                } else {
                    false
                };
                (offer, ask)
            },
            None => (Offer::Nothing, false),
        }
    }

    /// Tap a streaming client's capture: its keyframes are asked for at the recording's pace, and
    /// one at once, since the stream is in the middle of a group.
    pub fn attach(&mut self, opts: &RecordOptions) -> (mode: RecordingMode)
        requires
            opts.keyframe_interval_ms <= i64::MAX / 1000,
        ensures
            mode == RecordingMode::WaylandAttached,
            final(self).tap == Some(
                WlTap {
                    display_id: opts.display_id,
                    attached: true,
                    keyframe_interval_us: (opts.keyframe_ms() * 1000) as u64,
                },
            ),
            final(self).active == old(self).active,
            final(self).last_finished == old(self).last_finished,
            final(self).shared.fresh(),
    {
        let ms: i64 = opts.effective_keyframe_ms();
        self.shared = RecShared::new();
        self.tap = Some(
            WlTap {
                display_id: opts.display_id,
                attached: true,
                keyframe_interval_us: ms as u64 * 1000,
            },
        );
        RecordingMode::WaylandAttached
    }

    /// Tap a capture of its own, which schedules its keyframes itself.
    pub fn tap_own(&mut self, display_id: u32) -> (mode: RecordingMode)
        ensures
            mode == (RecordingMode::WaylandOwn { display_id }),
            final(self).tap == Some(
                WlTap { display_id, attached: false, keyframe_interval_us: 0 },
            ),
            final(self).active == old(self).active,
            final(self).last_finished == old(self).last_finished,
            final(self).shared.fresh(),
    {
        self.shared = RecShared::new();
        self.tap = Some(WlTap { display_id, attached: false, keyframe_interval_us: 0 });
        RecordingMode::WaylandOwn { display_id }
    }

    /// The tap is taken off.
    pub fn disarm_tap(&mut self)
        ensures
            *final(self) == (Recorder { tap: None, ..*old(self) }),
    {
        self.tap = None;
    }

    /// The recording runs. Returns its first status.
    pub fn started(&mut self, path: String, mode: RecordingMode) -> (s: RecordingStatus)
        ensures
            final(self).active == Some(ActiveRecording { path, mode }),
            final(self).last_finished == old(self).last_finished,
            final(self).tap == old(self).tap,
            mode == RecordingMode::X11Own ==> final(self).shared.fresh(),
            mode != RecordingMode::X11Own ==> final(self).shared == old(self).shared,
            s.active,
            s.path == path,
            (s.backend@, s.mode@) == mode.texts(),
            s.frames == 0 && s.sync_frames == 0 && s.dropped == 0 && s.skipped_non_h264 == 0,
            s.bytes == 0 && s.duration_us == 0 && s.width == 0 && s.height == 0,
            s.error is None,
    {
        let (backend, mode_name) = mode.names();
        if mode == RecordingMode::X11Own {
            self.shared = RecShared::new();
        }
        self.active = Some(ActiveRecording { path: path.clone(), mode });
        RecordingStatus {
            active: true,
            path,
            backend,
            mode: mode_name,
            frames: 0,
            sync_frames: 0,
            dropped: 0,
            skipped_non_h264: 0,
            bytes: 0,
            duration_us: 0,
            width: 0,
            height: 0,
            error: None,
        }
    }

    /// The writer closed the file: this is what the recording came to.
    pub fn finished(&mut self, status: RecordingStatus)
        ensures
            *final(self) == (Recorder { last_finished: Some(status), ..*old(self) }),
    {
        self.last_finished = Some(status);
    }
}

/// Whether a recording may start, and what it is captured from. Exactly one may be active.
pub fn start(rec: &Recorder, opts: &RecordOptions, wayland_up: bool, x11_up: bool) -> (r: Result<
    PreferredBackend,
    String,
>)
    ensures
        r is Err <==> start_refusal(rec.active is Some, *opts, wayland_up, x11_up) is Some,
        r matches Err(e) ==> Some(e@) == start_refusal(
            rec.active is Some,
            *opts,
            wayland_up,
            x11_up,
        ),
        r matches Ok(b) ==> b == chosen_backend(*opts, wayland_up),
{
    if rec.active.is_some() {
        return Err("a recording is already active".to_owned());
    }
    if opts.path.as_str().unicode_len() == 0 {
        return Err("recording path is empty".to_owned());
    }
    if let Some(c) = &opts.capture {
        if c.output_mode != 1 {
            return Err(not_h264_text());
        }
    }
    match opts.backend {
        Some(PreferredBackend::X11) => Ok(PreferredBackend::X11),
        Some(PreferredBackend::Wayland) => {
            if !wayland_up {
                return Err("no Wayland compositor is running in this process".to_owned());
            }
            Ok(PreferredBackend::Wayland)
        },
        None => {
            if wayland_up {
                Ok(PreferredBackend::Wayland)
            } else if x11_up {
                Ok(PreferredBackend::X11)
            } else {
                Err(
                    "no capture backend available: no in-process Wayland compositor and DISPLAY is unset".to_owned(),
                )
            }
        },
    }
}

/// Give settings without a size the size and scale of the output they capture.
pub fn fit_to_output(
    settings: &mut RustCaptureSettings,
    display_id: u32,
    outputs: &[OutputDesc],
) -> (r: Result<(), String>)
    ensures
        old(settings).width > 0 && old(settings).height > 0 ==> r is Ok && *final(settings)
            == *old(settings),
        old(settings).width <= 0 || old(settings).height <= 0 ==> match output_from(
            outputs@,
            display_id,
            0,
        ) {
            Some(i) => r is Ok && *final(settings) == (RustCaptureSettings {
                width: outputs@[i].width,
                height: outputs@[i].height,
                scale_micro: outputs@[i].scale_micro,
                ..*old(settings)
            }),
            None => {
                &&& r is Err
                &&& r->Err_0@ == "no wayland output with display id "@ + text::decimal(
                    display_id as nat,
                )
                &&& *final(settings) == *old(settings)
            },
        },
{
    if settings.width > 0 && settings.height > 0 {
        return Ok(());
    }
    let mut i: usize = 0;
    while i < outputs.len()
        invariant
            i <= outputs@.len(),
            *settings == *old(settings),
            settings.width <= 0 || settings.height <= 0,
            output_from(outputs@, display_id, i as int) == output_from(outputs@, display_id, 0),
        decreases outputs@.len() - i,
    {
        if outputs[i].id == display_id {
            settings.width = outputs[i].width;
            settings.height = outputs[i].height;
            settings.scale_micro = outputs[i].scale_micro;
            return Ok(());
        }
        i += 1;
    }
    let mut e = "no wayland output with display id ".to_owned();
    append_unsigned(&mut e, display_id as u64);
    Err(e)
}

/// Why a recorder-owned Wayland capture that never came alive failed.
pub fn capture_never_started(display_id: u32) -> (e: String)
    ensures
        e@ == "wayland capture on display "@ + text::decimal(display_id as nat)
            + " failed to start"@,
{
    let mut e = "wayland capture on display ".to_owned();
    append_unsigned(&mut e, display_id as u64);
    e.append(" failed to start");
    e
}

/// What stopping a recording tears down: its own capture, but not a display that a streaming
/// client has taken since.
pub open spec fn teardown_of(mode: RecordingMode, owners: Map<u32, u64>) -> Teardown {
    match mode {
        RecordingMode::X11Own => Teardown::X11,
        RecordingMode::WaylandOwn { display_id } => if owners.dom().contains(display_id) {
            Teardown::Nothing
        } else {
            Teardown::Wayland(display_id)
        },
        RecordingMode::WaylandAttached => Teardown::Nothing,
    }
}

/// Take the active recording out: no frame reaches it any more. Returns it with what is to be torn
/// down before the writer closes the file.
pub fn stop(rec: &mut Recorder, book: &CaptureBook) -> (r: Result<
    (ActiveRecording, Teardown),
    String,
>)
    ensures
        r is Err <==> old(rec).active is None,
        r matches Err(e) ==> e@ == "no recording is active"@ && *final(rec) == *old(rec),
        r matches Ok((a, t)) ==> {
            &&& Some(a) == old(rec).active
            &&& t == teardown_of(a.mode, book.owners@)
            &&& *final(rec) == (Recorder { active: None, tap: None, ..*old(rec) })
        },
{
    match rec.active.take() {
        None => Err("no recording is active".to_owned()),
        Some(a) => {
            rec.disarm_tap();
            let t = match a.mode {
                RecordingMode::X11Own => Teardown::X11,
                RecordingMode::WaylandOwn { display_id } => if book.owners.contains_key(
                    &display_id,
                ) {
                    Teardown::Nothing
                } else {
                    Teardown::Wayland(display_id)
                },
                RecordingMode::WaylandAttached => Teardown::Nothing,
            };
            Ok((a, t))
        },
    }
}

/// What a stopped recording came to: its final status, or why it failed.
pub fn outcome(rec: &Recorder, path: &str) -> (r: Result<RecordingStatus, String>)
    ensures
        match rec.last_finished {
            Some(s) => match s.error {
                Some(e) => r is Err && r->Err_0 == e,
                None => r is Ok && r->Ok_0 == s,
            },
            None => r is Err && r->Err_0@ == "recording of "@ + path@
                + " produced no final status"@,
        },
{
    match &rec.last_finished {
        Some(s) => match &s.error {
            Some(e) => Err(e.clone()),
            None => Ok(s.clone()),
        },
        None => {
            let mut e = "recording of ".to_owned();
            e.append(path);
            e.append(" produced no final status");
            Err(e)
        },
    }
}

/// The current status: the live recording's while one is active, else the last finished one's;
/// nothing where there never was one.
pub fn status(rec: &Recorder, elapsed_us: u64) -> (r: Option<RecordingStatus>)
    ensures
        match rec.active {
            Some(a) => {
                &&& r is Some
                &&& r->0.active
                &&& r->0.path == a.path
                &&& (r->0.backend@, r->0.mode@) == a.mode.texts()
                &&& r->0.frames == rec.shared.muxed
                &&& r->0.sync_frames == rec.shared.sync_frames
                &&& r->0.dropped == rec.shared.dropped
                &&& r->0.skipped_non_h264 == rec.shared.skipped_non_h264
                &&& r->0.bytes == rec.shared.bytes
                &&& r->0.duration_us == elapsed_us
                &&& r->0.width == rec.shared.width
                &&& r->0.height == rec.shared.height
                &&& r->0.error == rec.shared.error
            },
            None => r == rec.last_finished,
        },
{
    match &rec.active {
        Some(a) => {
            let (backend, mode) = a.mode.names();
            Some(
                RecordingStatus {
                    active: true,
                    path: a.path.clone(),
                    backend,
                    mode,
                    frames: rec.shared.muxed,
                    sync_frames: rec.shared.sync_frames,
                    dropped: rec.shared.dropped,
                    skipped_non_h264: rec.shared.skipped_non_h264,
                    bytes: rec.shared.bytes,
                    duration_us: elapsed_us,
                    width: rec.shared.width,
                    height: rec.shared.height,
                    error: clone_text(&rec.shared.error),
                },
            )
        },
        None => match &rec.last_finished {
            Some(s) => Some(s.clone()),
            None => None,
        },
    }
}

/// At the end of the process an active recording is stopped, so that its last sample is written.
pub fn finalize_on_exit(rec: &mut Recorder, book: &CaptureBook) -> (r: Option<
    (ActiveRecording, Teardown),
>)
    ensures
        final(rec).active is None,
        match old(rec).active {
            Some(a) => r == Some((a, teardown_of(a.mode, book.owners@))) && *final(rec)
                == (Recorder { active: None, tap: None, ..*old(rec) }),
            None => r is None && *final(rec) == *old(rec),
        },
{
    match stop(rec, book) {
        Ok(s) => Some(s),
        Err(_) => None,
    }
}

/// A backend that the recording may run on is there.
pub open spec fn backend_up(
    backend: Option<PreferredBackend>,
    wayland_up: bool,
    x11_up: bool,
) -> bool {
    match backend {
        Some(PreferredBackend::X11) => x11_up,
        Some(PreferredBackend::Wayland) => wayland_up,
        None => wayland_up || x11_up,
    }
}

/// Whether a process records from its start: once, and where a path is set.
pub fn autostart_from_env(path: Option<&str>, started: &mut bool) -> (go: bool)
    ensures
        go == (path is Some && path->0@.len() > 0 && !*old(started)),
        *final(started) == (*old(started) || go),
{
    match path {
        Some(p) => {
            if p.unicode_len() == 0 || *started {
                false
            } else {
                *started = true;
                true
            }
        },
        None => false,
    }
}

/// Whether a start is tried in this round.
pub fn autostart_ready(
    backend: Option<PreferredBackend>,
    wayland_up: bool,
    x11_up: bool,
) -> (b: bool)
    ensures
        b == backend_up(backend, wayland_up, x11_up),
{
    match backend {
        Some(PreferredBackend::X11) => x11_up,
        Some(PreferredBackend::Wayland) => wayland_up,
        None => wayland_up || x11_up,
    }
}

/// What is told when no start came off in time.
pub fn autostart_gave_up(last_err: &str) -> (s: String)
    ensures
        s@ == "[recorder] PIXELFLUX_RECORD autostart gave up: "@ + if last_err@.len() == 0 {
            "no capture backend appeared"@
        } else {
            last_err@
        },
{
    let mut s = "[recorder] PIXELFLUX_RECORD autostart gave up: ".to_owned();
    if last_err.unicode_len() == 0 {
        s.append("no capture backend appeared");
    } else {
        s.append(last_err);
    }
    s
}

/// A start is tried only where its backend is there, so what an autostart hears back is never that
/// none is.
pub proof fn ready_starts_find_their_backend(o: RecordOptions, wayland_up: bool, x11_up: bool)
    requires
        backend_up(o.backend, wayland_up, x11_up),
        o.path@.len() > 0,
        o.capture is None,
    ensures
        start_refusal(false, o, wayland_up, x11_up) is None,
{
}

/// A display that a streaming client owns survives the recorder's end.
pub proof fn owned_displays_survive(mode: RecordingMode, owners: Map<u32, u64>, display_id: u32)
    requires
        owners.dom().contains(display_id),
    ensures
        teardown_of(mode, owners) != Teardown::Wayland(display_id),
{
}

} // verus!
