//! Frame-processing policy shared by the capture backends.
//!
//! The Wayland path (compositor damage) and the X11 path (content comparison) capture pixels in
//! completely different ways, but a viewer must never be able to tell which one produced a frame:
//! a paint-over refresh or a recovery keyframe has to behave identically either way. Keeping the
//! decision here, source-agnostic, is what guarantees it.

use vstd::prelude::*;
use crate::encoders;
use crate::encoders::{
    colorspace_desc, Codec, EncodedStripe, FrameTiming, StripeState, DATA_TYPE_H264,
    HW_ERROR_RECOVERY_THRESHOLD, SOFTWARE_H264_ENCODER, SOFTWARE_H264_FULLCOLOR,
};
use crate::settings::{LiveTunables, RustCaptureSettings};

verus! {

/// Outcome of the full-frame send decision produced by `decide_hw_fullframe`.
#[derive(Clone, Copy, Debug, PartialEq, Eq, Structural)]
pub struct HwFrameDecision {
    pub send: bool,
    pub force_idr: bool,
    pub target_qp: u32,
}

/// Frames between scheduled keyframes: the interval at the frame rate (at least one a second), to
/// the nearest frame, and at least one.
pub open spec fn idr_interval(fps_milli: u32, interval_ms: i64) -> nat {
    let frames = (encoders::budget_fps_milli(fps_milli) * interval_ms + 500_000) / 1_000_000;
    if frames < 1 {
        1
    } else {
        frames as nat
    }
}

/// A scheduled keyframe is due at this frame: an interval is set and divides the frame's number.
pub open spec fn idr_scheduled(settings: RustCaptureSettings, frame_counter: u16) -> bool {
    settings.keyframe_interval_ms > 0 && frame_counter as nat % idr_interval(
        settings.target_fps_milli,
        settings.keyframe_interval_ms,
    ) == 0
}

/// Whether a scheduled keyframe is due this tick.
///
/// Without an interval the GOP is infinite, with no scheduled keyframes. A positive interval buys
/// a fixed recovery cadence for consumers that cannot request one on demand.
pub fn periodic_idr_due(settings: &RustCaptureSettings, frame_counter: u16) -> (b: bool)
    ensures
        b == idr_scheduled(*settings, frame_counter),
{
    if settings.keyframe_interval_ms <= 0 {
        return false;
    }
    let fps: u128 = if settings.target_fps_milli < 1000 {
        1000
    } else {
        settings.target_fps_milli as u128
    };
    let ms: u128 = settings.keyframe_interval_ms as u128;
    assert(fps * ms <= 0x1_0000_0000 * 0x1_0000_0000_0000_0000) by (nonlinear_arith)
        requires
            fps <= 0x1_0000_0000,
            ms <= 0x1_0000_0000_0000_0000,
    ;
    let frames: u128 = (fps * ms + 500_000) / 1_000_000;
    let interval: u128 = if frames < 1 {
        1
    } else {
        frames
    };
    frame_counter as u128 % interval == 0
}

/// The quality a burst sends at: the paint-over quality where it is on and better.
pub open spec fn burst_qp(s: RustCaptureSettings) -> u32 {
    if s.use_paint_over_quality && (s.video_paintover_crf as u32) < s.video_crf as u32 {
        s.video_paintover_crf as u32
    } else {
        s.video_crf as u32
    }
}

/// What asks for a frame besides motion and the burst: the always-on modes.
pub open spec fn always_on(s: RustCaptureSettings, is_animated: bool) -> bool {
    s.video_streaming_mode || is_animated
}

/// The paint-over refresh of a still is due: nothing else sends, enough still frames have passed,
/// it was not sent yet, and it would improve the picture.
pub open spec fn refresh_due(st: StripeState, s: RustCaptureSettings) -> bool {
    s.use_paint_over_quality && st.no_motion_frame_count + 1 >= s.paint_over_trigger_frames
        && !st.paint_over_sent && (s.video_paintover_crf as u32) < s.video_crf as u32
}

/// A still that nothing else sends: only those are counted towards a refresh.
pub open spec fn quiet_still(
    st: StripeState,
    s: RustCaptureSettings,
    is_dirty: bool,
    is_animated: bool,
    recovery: bool,
) -> bool {
    !is_dirty && !recovery && !always_on(s, is_animated) && st.h264_burst_frames_remaining <= 0
}

/// What a decision counts stays within 32 bits: a still that is counted finds room in its counter,
/// and a refresh that opens its burst a length that one less can be told of.
pub open spec fn countable(
    st: StripeState,
    s: RustCaptureSettings,
    is_dirty: bool,
    is_animated: bool,
    recovery: bool,
) -> bool {
    quiet_still(st, s, is_dirty, is_animated, recovery) ==> {
        &&& st.no_motion_frame_count < u32::MAX
        &&& refresh_due(st, s) ==> s.video_paintover_burst_frames > i32::MIN
    }
}

/// The frames a burst in progress has left behind this one.
pub open spec fn burst_after(st: StripeState) -> i32 {
    if st.h264_burst_frames_remaining > 0 {
        (st.h264_burst_frames_remaining - 1) as i32
    } else {
        st.h264_burst_frames_remaining
    }
}

/// The send / quality / keyframe decision of a frame. `recovery` says a keyframe was requested or
/// is scheduled.
pub open spec fn decision(
    st: StripeState,
    s: RustCaptureSettings,
    is_dirty: bool,
    is_animated: bool,
    recovery: bool,
) -> HwFrameDecision {
    let bursting = st.h264_burst_frames_remaining > 0;
    let otherwise = bursting || always_on(s, is_animated) || is_dirty || recovery;
    let refresh = !otherwise && refresh_due(st, s);
    HwFrameDecision {
        send: otherwise || refresh,
        force_idr: recovery,
        target_qp: if refresh {
            s.video_paintover_crf as u32
        } else if bursting && !is_dirty && !(recovery && burst_after(st) <= 0) {
            burst_qp(s)
        } else {
            s.video_crf as u32
        },
    }
}

/// What the decision leaves of the stripe's state: motion starts over; a keyframe on a still opens
/// a recovery burst unless one is running; a refresh opens its burst; a still that sends nothing
/// is counted.
pub open spec fn decided(
    st: StripeState,
    s: RustCaptureSettings,
    is_dirty: bool,
    is_animated: bool,
    recovery: bool,
) -> StripeState {
    let left = burst_after(st);
    if is_dirty {
        StripeState {
            h264_burst_frames_remaining: 0,
            paint_over_sent: false,
            no_motion_frame_count: 0,
        }
    } else if recovery {
        if left <= 0 && s.video_paintover_burst_frames > 0 {
            StripeState {
                h264_burst_frames_remaining: s.video_paintover_burst_frames,
                paint_over_sent: true,
                ..st
            }
        } else {
            StripeState { h264_burst_frames_remaining: left, ..st }
        }
    } else if st.h264_burst_frames_remaining > 0 || always_on(s, is_animated) {
        StripeState { h264_burst_frames_remaining: left, ..st }
    } else if refresh_due(st, s) {
        StripeState {
            h264_burst_frames_remaining: (s.video_paintover_burst_frames - 1) as i32,
            paint_over_sent: true,
            no_motion_frame_count: (st.no_motion_frame_count + 1) as u32,
        }
    } else {
        StripeState { no_motion_frame_count: (st.no_motion_frame_count + 1) as u32, ..st }
    }
}

/// The send / quality / keyframe policy every full-frame encoder obeys.
///
/// A static screen costs almost nothing to stream; a client that just joined or reset can always
/// recover a clean picture. The GOP is left infinite and a keyframe is forced only when a consumer
/// genuinely needs a fresh decode entry point. Every forced keyframe on a still is followed by a
/// short recovery burst that keeps streaming until rate control converges.
///
/// Priority order: recovery burst in progress, always-on streaming or animated modes, motion,
/// recovery keyframe on a static screen, paint-over refresh.
pub fn decide_hw_fullframe(
    st: &mut StripeState,
    settings: &RustCaptureSettings,
    frame_counter: u16,
    is_dirty: bool,
    is_animated: bool,
    requested_idr: bool,
) -> (d: HwFrameDecision)
    requires
        countable(
            *old(st),
            *settings,
            is_dirty,
            is_animated,
            requested_idr || idr_scheduled(*settings, frame_counter),
        ),
    ensures
        d == decision(
            *old(st),
            *settings,
            is_dirty,
            is_animated,
            requested_idr || idr_scheduled(*settings, frame_counter),
        ),
        *final(st) == decided(
            *old(st),
            *settings,
            is_dirty,
            is_animated,
            requested_idr || idr_scheduled(*settings, frame_counter),
        ),
{
    let normal_qp: u32 = settings.video_crf as u32;
    let paint_qp: u32 = settings.video_paintover_crf as u32;
    let burst: i32 = settings.video_paintover_burst_frames;
    let better: bool = settings.use_paint_over_quality && paint_qp < normal_qp;

    let mut send_frame: bool = false;
    let mut force_idr: bool = false;
    let mut target_qp: u32 = normal_qp;

    if st.h264_burst_frames_remaining > 0 {
        send_frame = true;
        target_qp = if better {
            paint_qp
        } else {
            normal_qp
        };
        st.h264_burst_frames_remaining = st.h264_burst_frames_remaining - 1;
    }
    if settings.video_streaming_mode || is_animated {
        send_frame = true;
    }
    let recovery_idr: bool = requested_idr || periodic_idr_due(settings, frame_counter);

    if is_dirty {
        send_frame = true;
        force_idr = recovery_idr;
        st.no_motion_frame_count = 0;
        st.paint_over_sent = false;
        st.h264_burst_frames_remaining = 0;
        target_qp = normal_qp;
    } else if recovery_idr {
        send_frame = true;
        force_idr = true;
        if st.h264_burst_frames_remaining <= 0 {
            target_qp = normal_qp;
            if burst > 0 {
                st.paint_over_sent = true;
                st.h264_burst_frames_remaining = burst;
            }
        }
    } else if !send_frame {
        st.no_motion_frame_count = st.no_motion_frame_count + 1;
        if better && st.no_motion_frame_count >= settings.paint_over_trigger_frames
            && !st.paint_over_sent {
            send_frame = true;
            st.paint_over_sent = true;
            target_qp = paint_qp;
            st.h264_burst_frames_remaining = burst - 1;
        }
    }
    HwFrameDecision { send: send_frame, force_idr, target_qp }
}

/// Motion is always sent, at normal quality, and ends a burst.
pub proof fn motion_sends_at_normal_quality(
    st: StripeState,
    s: RustCaptureSettings,
    is_animated: bool,
    recovery: bool,
)
    ensures
        decision(st, s, true, is_animated, recovery).send,
        decision(st, s, true, is_animated, recovery).target_qp == s.video_crf as u32,
        decided(st, s, true, is_animated, recovery).h264_burst_frames_remaining == 0,
        !decided(st, s, true, is_animated, recovery).paint_over_sent,
{
}

/// A keyframe is forced exactly when one is requested or scheduled, and it is sent.
pub proof fn keyframes_come_only_when_asked_for(
    st: StripeState,
    s: RustCaptureSettings,
    is_dirty: bool,
    is_animated: bool,
    recovery: bool,
)
    ensures
        decision(st, s, is_dirty, is_animated, recovery).force_idr == recovery,
        recovery ==> decision(st, s, is_dirty, is_animated, recovery).send,
{
}

/// Every decision keeps to the policy: a keyframe exactly when one is requested or scheduled, and
/// then sent; motion sent at normal quality, leaving neither a burst nor a count of stills; always-on
/// modes sent; and never a quality but the two configured.
pub proof fn decisions_keep_to_the_policy(
    st: StripeState,
    s: RustCaptureSettings,
    is_dirty: bool,
    is_animated: bool,
    recovery: bool,
)
    ensures
        ({
            let d = decision(st, s, is_dirty, is_animated, recovery);
            let after = decided(st, s, is_dirty, is_animated, recovery);
            &&& d.force_idr == recovery
            &&& d.force_idr ==> d.send
            &&& is_dirty ==> {
                &&& d.send
                &&& d.target_qp == s.video_crf as u32
                &&& after.h264_burst_frames_remaining == 0
                &&& after.no_motion_frame_count == 0
                &&& !after.paint_over_sent
            }
            &&& s.video_streaming_mode || is_animated ==> d.send
            &&& d.target_qp == s.video_crf as u32 || d.target_qp == s.video_paintover_crf as u32
        }),
{
}

/// The state after `n` still frames with nothing asked for.
pub open spec fn after_stills(st: StripeState, s: RustCaptureSettings, n: nat) -> StripeState
    decreases n,
{
    if n == 0 {
        st
    } else {
        decided(after_stills(st, s, (n - 1) as nat), s, false, false, false)
    }
}

/// A keyframe on a still opens a burst of the configured length: that many still frames are sent
/// behind it, and then the stream is quiet, as the refresh of this still counts as sent.
pub proof fn recovery_burst_runs_and_ends(st: StripeState, s: RustCaptureSettings, n: nat)
    requires
        st.h264_burst_frames_remaining <= 0,
        s.video_paintover_burst_frames > 0,
        !s.video_streaming_mode,
        n < s.video_paintover_burst_frames + (u32::MAX - st.no_motion_frame_count),
    ensures
        ({
            let opened = decided(st, s, false, false, true);
            decision(after_stills(opened, s, n), s, false, false, false).send <==> n
                < s.video_paintover_burst_frames
        }),
{
    let opened = decided(st, s, false, false, true);
    burst_counts_down(opened, s, n);
}

proof fn burst_counts_down(st: StripeState, s: RustCaptureSettings, n: nat)
    requires
        st.paint_over_sent,
        st.h264_burst_frames_remaining > 0,
        !s.video_streaming_mode,
        n < st.h264_burst_frames_remaining + (u32::MAX - st.no_motion_frame_count),
    ensures
        after_stills(st, s, n).paint_over_sent,
        after_stills(st, s, n).h264_burst_frames_remaining == if n
            <= st.h264_burst_frames_remaining {
            st.h264_burst_frames_remaining - n
        } else {
            0
        },
    decreases n,
{
    if n > 0 {
        burst_counts_down(st, s, (n - 1) as nat);
    }
}

/// With nothing asked for, no interval set and paint-over off, a still screen sends nothing.
pub proof fn stills_stay_silent(st: StripeState, s: RustCaptureSettings)
    requires
        st.h264_burst_frames_remaining <= 0,
        !s.video_streaming_mode,
        !s.use_paint_over_quality,
    ensures
        !decision(st, s, false, false, false).send,
        decided(st, s, false, false, false).h264_burst_frames_remaining
            == st.h264_burst_frames_remaining,
{
}

/// What encodes full frames.
#[derive(Clone, Copy, Debug, PartialEq, Eq, Structural)]
pub enum Backend {
    Nvenc,
    Vaapi,
    Software,
}

/// A full-frame encoder session, as far as the pipeline decides by it.
#[derive(Debug)]
pub struct FrameEncoder {
    pub backend: Backend,
    /// The backend's name for the stream log.
    pub name: String,
    /// The session carries 4:4:4.
    pub fullcolor: bool,
}

impl FrameEncoder {
    pub open spec fn hardware(self) -> bool {
        self.backend != Backend::Software
    }

    pub fn is_hardware(&self) -> (b: bool)
        ensures
            b == self.hardware(),
    {
        self.backend != Backend::Software
    }
}

/// The chroma a session actually carries: NVENC takes 4:4:4 whenever asked, any other session what
/// it negotiated, the striped software path what the software encoder carries.
pub open spec fn carries_fullcolor(hw: Option<FrameEncoder>, asked: bool) -> bool {
    match hw {
        Some(enc) => if enc.backend == Backend::Nvenc {
            asked
        } else {
            enc.fullcolor
        },
        None => asked && SOFTWARE_H264_FULLCOLOR,
    }
}

/// A step of the ladder a failing hardware session recovers through.
#[derive(Clone, Copy, Debug, PartialEq, Eq, Structural)]
pub enum Recovery {
    /// Nothing to do.
    Keep,
    /// Build the session anew, with the startup selection.
    Rebuild,
    /// Fall back to the software encoder.
    Demote,
}

/// What to do with a captured frame.
#[derive(Clone, Copy, Debug, PartialEq, Eq, Structural)]
pub enum FramePlan {
    /// Hand it to the full-frame session.
    Encode { force_idr: bool, target_qp: u32 },
    /// Send nothing.
    Skip,
    /// Hand it to the striped software encoder, a keyframe on every stripe where one is due.
    Software { force_idr_all: bool },
}

/// What became of a planned frame.
#[derive(Debug)]
pub enum FrameResult {
    /// The session's output, empty while it holds a frame back.
    Encoded(Vec<u8>),
    /// The session failed.
    Failed,
    /// The striped encoder's output.
    Stripes(Vec<EncodedStripe>),
    /// Nothing was to be done.
    Nothing,
}

/// The result is one of the planned work.
pub open spec fn answers(plan: FramePlan, result: FrameResult) -> bool {
    match plan {
        FramePlan::Encode { .. } => result is Encoded || result is Failed,
        FramePlan::Skip => result is Nothing,
        FramePlan::Software { .. } => result is Stripes,
    }
}

/// Everything the X11 path has to remember between frames.
///
/// A full-frame encoder runs through `decide_hw_fullframe`; the striped software path decides per
/// stripe. Recording fan-out is handled at the delivery layer; a consumer needing a keyframe goes
/// through [`X11Pipeline::request_idr`] like everyone else.
#[derive(Debug)]
pub struct X11Pipeline {
    pub settings: RustCaptureSettings,
    /// The full-frame encoder, or `None` for the striped software path.
    pub hw: Option<FrameEncoder>,
    pub hw_state: StripeState,
    pub frame_counter: u16,
    pub pending_force_idr: bool,
    /// Consecutive hardware encode failures.
    pub hw_error_streak: u32,
    /// The pipeline already spent its one rebuild.
    pub hw_rebuilt: bool,
}

/// A stripe nothing was decided for yet.
pub open spec fn fresh_stripe() -> StripeState {
    StripeState {
        h264_burst_frames_remaining: 0,
        paint_over_sent: false,
        no_motion_frame_count: 0,
    }
}

impl X11Pipeline {
    /// A pipeline whose session broke: the session is gone, its state starts over, a keyframe is
    /// armed, and the one rebuild is spent or the software encoder chosen.
    pub open spec fn recovering(self) -> (Recovery, X11Pipeline) {
        let common = X11Pipeline {
            hw: None,
            hw_state: fresh_stripe(),
            pending_force_idr: true,
            hw_error_streak: 0,
            ..self
        };
        if self.hw_rebuilt {
            (
                Recovery::Demote,
                X11Pipeline {
                    settings: RustCaptureSettings { use_cpu: true, ..self.settings },
                    ..common
                },
            )
        } else {
            (Recovery::Rebuild, X11Pipeline { hw_rebuilt: true, ..common })
        }
    }

    /// A keyframe is due for every stripe of the software path.
    pub open spec fn software_idr(self) -> bool {
        self.pending_force_idr || (self.settings.codec.video() && idr_scheduled(
            self.settings,
            self.frame_counter,
        ))
    }

    /// The pipeline once a hardware encode failed, with the step its streak calls for.
    pub open spec fn after_failure(self) -> (Recovery, X11Pipeline) {
        let streak = if self.hw_error_streak == u32::MAX {
            u32::MAX
        } else {
            (self.hw_error_streak + 1) as u32
        };
        let counted = X11Pipeline { hw_error_streak: streak, ..self };
        if streak >= HW_ERROR_RECOVERY_THRESHOLD {
            counted.recovering()
        } else {
            (Recovery::Keep, counted)
        }
    }

    /// The pipeline once a frame is done with. An unserved request stays armed: on an infinite GOP
    /// a keyframe lost to an encode error or a skip would never come by itself.
    pub open spec fn frame_done(self, requested: bool, sent: bool) -> X11Pipeline {
        X11Pipeline {
            pending_force_idr: (requested || self.pending_force_idr) && !sent,
            frame_counter: if self.frame_counter == u16::MAX {
                0
            } else {
                (self.frame_counter + 1) as u16
            },
            ..self
        }
    }

    /// What is done with a captured frame, and what deciding that leaves of the pipeline.
    pub open spec fn planned(self, content_changed: bool) -> (FramePlan, X11Pipeline) {
        match self.hw {
            None => (FramePlan::Software { force_idr_all: self.software_idr() }, self),
            Some(_) => {
                let s = self.settings;
                let dirty = content_changed && !s.video_streaming_mode;
                let recovery = self.pending_force_idr || idr_scheduled(s, self.frame_counter);
                let d = decision(self.hw_state, s, dirty, false, recovery);
                (
                    if d.send {
                        FramePlan::Encode { force_idr: d.force_idr, target_qp: d.target_qp }
                    } else {
                        FramePlan::Skip
                    },
                    X11Pipeline {
                        hw_state: decided(self.hw_state, s, dirty, false, recovery),
                        ..self
                    },
                )
            },
        }
    }

    /// The stripes that a frame's outcome delivers.
    pub open spec fn delivered(self, result: FrameResult) -> Seq<EncodedStripe> {
        match result {
            FrameResult::Encoded(data) => if data@.len() > 0 {
                seq![whole_frame(data, self.settings, self.frame_counter)]
            } else {
                seq![]
            },
            FrameResult::Stripes(stripes) => stripes@,
            FrameResult::Failed => seq![],
            FrameResult::Nothing => seq![],
        }
    }

    /// The recovery step that a frame's outcome calls for, and the pipeline behind the frame.
    pub open spec fn finished(self, result: FrameResult) -> (Recovery, X11Pipeline) {
        let sent = self.delivered(result).len() > 0;
        let (step, next) = match result {
            FrameResult::Encoded(_) => (
                Recovery::Keep,
                X11Pipeline { hw_error_streak: 0, hw_rebuilt: false, ..self },
            ),
            FrameResult::Failed => self.after_failure(),
            FrameResult::Stripes(_) => (Recovery::Keep, self),
            FrameResult::Nothing => (Recovery::Keep, self),
        };
        (step, next.frame_done(self.pending_force_idr, sent))
    }

    /// A pipeline around the encoder chosen for the settings.
    pub fn new(settings: RustCaptureSettings, hw: Option<FrameEncoder>) -> (p: Self)
        ensures
            p == (X11Pipeline {
                settings,
                hw,
                hw_state: fresh_stripe(),
                frame_counter: 0,
                pending_force_idr: false,
                hw_error_streak: 0,
                hw_rebuilt: false,
            }),
    {
        X11Pipeline {
            settings,
            hw,
            hw_state: StripeState::default(),
            frame_counter: 0,
            pending_force_idr: false,
            hw_error_streak: 0,
            hw_rebuilt: false,
        }
    }

    /// React to a streak of hardware encode failures: rebuild the session once with the startup
    /// selection, and demote to the software encoder when a fresh session fails the same way. A
    /// session whose encodes keep failing still constructs, so the rebuild only counts as recovery
    /// until an encode succeeds; otherwise the stream would rebuild in a loop and never demote.
    /// The step has to be carried out and its session handed to [`X11Pipeline::install`].
    fn recover_hw(&mut self) -> (r: Recovery)
        ensures
            (r, *final(self)) == old(self).recovering(),
    {
        self.hw_error_streak = 0;
        self.hw = None;
        self.hw_state = StripeState::default();
        self.pending_force_idr = true;
        if self.hw_rebuilt {
            self.settings.use_cpu = true;
            Recovery::Demote
        } else {
            self.hw_rebuilt = true;
            Recovery::Rebuild
        }
    }

    /// Put the session a recovery step built in place.
    pub fn install(&mut self, hw: Option<FrameEncoder>)
        ensures
            *final(self) == (X11Pipeline { hw, ..*old(self) }),
    {
        self.hw = hw;
    }

    /// Request an on-demand keyframe on the next processed frame.
    pub fn request_idr(&mut self)
        ensures
            *final(self) == (X11Pipeline { pending_force_idr: true, ..*old(self) }),
    {
        self.pending_force_idr = true;
    }

    /// The encoder's name for the stream log: the hardware backend, the software library of a
    /// full-frame session, or `CPU` for the striped software path.
    pub fn encoder_name(&self) -> (s: String)
        ensures
            s@ == match self.hw {
                Some(enc) => if enc.hardware() {
                    enc.name@
                } else {
                    "CPU ("@ + enc.name@ + ")"@
                },
                None => "CPU ("@ + SOFTWARE_H264_ENCODER@ + ")"@,
            },
    {
        match &self.hw {
            Some(enc) => if enc.is_hardware() {
                enc.name.clone()
            } else {
                cpu_name(enc.name.as_str())
            },
            None => cpu_name(SOFTWARE_H264_ENCODER),
        }
    }

    /// The codec the pipeline actually emits, after any demotion.
    pub fn codec(&self) -> (c: Codec)
        ensures
            c == self.settings.codec,
    {
        self.settings.codec
    }

    /// The pipeline encodes on a GPU.
    pub open spec fn on_gpu(self) -> bool {
        self.hw matches Some(enc) && enc.hardware()
    }

    /// Whether the pipeline encodes on a GPU.
    pub fn is_hardware(&self) -> (b: bool)
        ensures
            b == self.on_gpu(),
    {
        match &self.hw {
            Some(enc) => enc.is_hardware(),
            None => false,
        }
    }

    /// The `Colorspace:` field for this pipeline's stream log, describing what its encoder settled
    /// on.
    pub fn colorspace_desc(&self) -> (s: &'static str)
        ensures
            s@ == encoders::colorspace_text(
                carries_fullcolor(self.hw, self.settings.video_fullcolor),
                !self.on_gpu(),
            ),
    {
        let fullcolor: bool = session_fullcolor(&self.hw, self.settings.video_fullcolor);
        colorspace_desc(fullcolor, !self.is_hardware())
    }

    /// Recreated capture surfaces of another size have to be followed by the session itself.
    pub fn resize_asks_session(&self, size_changed: bool) -> (b: bool)
        ensures
            b == (size_changed && (self.hw matches Some(enc) && enc.backend == Backend::Nvenc)),
    {
        match &self.hw {
            Some(enc) => size_changed && enc.backend == Backend::Nvenc,
            None => false,
        }
    }

    /// Adapt the live pipeline to recreated capture surfaces without rebuilding it. `followed` says
    /// whether the session took the new size, where [`X11Pipeline::resize_asks_session`] asked for
    /// it. False when the active encoder cannot follow and the caller must rebuild.
    pub fn reshape(
        &mut self,
        settings: &RustCaptureSettings,
        size_changed: bool,
        followed: bool,
    ) -> (b: bool)
        ensures
            b == (!size_changed || (match old(self).hw {
                Some(enc) => enc.backend == Backend::Nvenc && followed,
                None => true,
            })),
            !b ==> *final(self) == *old(self),
            b && !size_changed ==> *final(self) == (X11Pipeline {
                settings: *settings,
                ..*old(self)
            }),
            b && size_changed ==> *final(self) == (X11Pipeline {
                settings: RustCaptureSettings { codec: old(self).settings.codec, ..*settings },
                hw_state: fresh_stripe(),
                ..*old(self)
            }),
    {
        if !size_changed {
            self.settings = settings.clone();
            return true;
        }
        match &self.hw {
            Some(enc) => {
                if enc.backend != Backend::Nvenc || !followed {
                    return false;
                }
            },
            None => {},
        }
        let codec = self.settings.codec;
        self.settings = settings.clone();
        self.settings.codec = codec;
        self.hw_state = StripeState::default();
        true
    }

    /// The settings with a rate change applied; a frame rate that is not positive is left out.
    pub open spec fn with_rate(
        s: RustCaptureSettings,
        bitrate_kbps: i32,
        vbv_multiplier_milli: i32,
        fps_milli: u32,
    ) -> RustCaptureSettings {
        RustCaptureSettings {
            video_bitrate_kbps: bitrate_kbps,
            video_vbv_multiplier_milli: vbv_multiplier_milli,
            target_fps_milli: if fps_milli > 0 {
                fps_milli
            } else {
                s.target_fps_milli
            },
            ..s
        }
    }

    /// Apply a runtime rate-control or framerate change to the settings.
    pub fn update_rate(&mut self, bitrate_kbps: i32, vbv_multiplier_milli: i32, fps_milli: u32)
        ensures
            *final(self) == (X11Pipeline {
                settings: X11Pipeline::with_rate(
                    old(self).settings,
                    bitrate_kbps,
                    vbv_multiplier_milli,
                    fps_milli,
                ),
                ..*old(self)
            }),
    {
        self.settings.video_bitrate_kbps = bitrate_kbps;
        self.settings.video_vbv_multiplier_milli = vbv_multiplier_milli;
        if fps_milli > 0 {
            self.settings.target_fps_milli = fps_milli;
        }
    }

    /// Whether the session took the new rate. One that did not has lost its codec context, so it
    /// goes through the rebuild-or-demote ladder instead of being encoded into.
    pub fn rate_reconfigured(&mut self, taken: bool) -> (r: Recovery)
        ensures
            old(self).hw is None || taken ==> r == Recovery::Keep && *final(self) == *old(self),
            old(self).hw is Some && !taken ==> (r, *final(self)) == old(self).recovering(),
    {
        if self.hw.is_some() && !taken {
            self.recover_hw()
        } else {
            Recovery::Keep
        }
    }

    /// Apply live per-frame tunables; every encoder re-reads them from the settings on the next
    /// frame.
    pub fn update_tunables(&mut self, t: &LiveTunables)
        ensures
            *final(self) == (X11Pipeline {
                settings: t.applied(old(self).settings),
                ..*old(self)
            }),
    {
        t.apply_to(&mut self.settings);
    }

    /// The frame's content has to be compared with the last one's: motion decides, and the
    /// streaming mode does not send everything anyway.
    pub fn compares_content(&self) -> (b: bool)
        ensures
            b == (self.hw is Some && !self.settings.video_streaming_mode),
    {
        self.hw.is_some() && !self.settings.video_streaming_mode
    }

    /// Decide what to do with one captured frame, whose content changed or not.
    pub fn plan_frame(&mut self, content_changed: bool) -> (plan: FramePlan)
        requires
            old(self).hw is Some ==> countable(
                old(self).hw_state,
                old(self).settings,
                content_changed && !old(self).settings.video_streaming_mode,
                false,
                old(self).pending_force_idr || idr_scheduled(
                    old(self).settings,
                    old(self).frame_counter,
                ),
            ),
        ensures
            (plan, *final(self)) == old(self).planned(content_changed),
    {
        if self.hw.is_none() {
            let force_idr_all: bool = self.pending_force_idr || (self.settings.codec.is_video()
                && periodic_idr_due(&self.settings, self.frame_counter));
            return FramePlan::Software { force_idr_all };
        }
        let dirty: bool = content_changed && !self.settings.video_streaming_mode;
        let d = decide_hw_fullframe(
            &mut self.hw_state,
            &self.settings,
            self.frame_counter,
            dirty,
            false,
            self.pending_force_idr,
        );
        if d.send {
            FramePlan::Encode { force_idr: d.force_idr, target_qp: d.target_qp }
        } else {
            FramePlan::Skip
        }
    }

    /// Take the outcome of a planned frame: the stripes to deliver, and the recovery step a streak
    /// of failures calls for.
    pub fn finish_frame(&mut self, plan: FramePlan, result: FrameResult) -> (r: (
        Vec<EncodedStripe>,
        Recovery,
    ))
        requires
            answers(plan, result),
        ensures
            r.0@ == old(self).delivered(result),
            (r.1, *final(self)) == old(self).finished(result),
    {
        let requested: bool = self.pending_force_idr;
        let mut recovery = Recovery::Keep;
        let mut out: Vec<EncodedStripe> = Vec::new();
        match result {
            FrameResult::Encoded(data) => {
                self.hw_error_streak = 0;
                self.hw_rebuilt = false;
                if data.len() > 0 {
                    out.push(
                        EncodedStripe {
                            data,
                            data_type: DATA_TYPE_H264,
                            codec: self.settings.codec,
                            stripe_y_start: 0,
                            stripe_height: self.settings.height,
                            frame_id: self.frame_counter as i32,
                            timing: FrameTiming {
                                capture_ns: 0,
                                encode_start_ns: 0,
                                encode_end_ns: 0,
                            },
                        },
                    );
                }
            },
            FrameResult::Failed => {
                self.hw_error_streak = self.hw_error_streak.saturating_add(1);
                if self.hw_error_streak >= HW_ERROR_RECOVERY_THRESHOLD {
                    recovery = self.recover_hw();
                }
            },
            FrameResult::Stripes(stripes) => {
                out = stripes;
            },
            FrameResult::Nothing => {},
        }
        self.pending_force_idr = (requested || self.pending_force_idr) && out.len() == 0;
        self.frame_counter = if self.frame_counter == u16::MAX {
            0
        } else {
            self.frame_counter + 1
        };
        (out, recovery)
    }
}

/// A full-frame session's output as the one stripe of its frame.
pub open spec fn whole_frame(
    data: Vec<u8>,
    settings: RustCaptureSettings,
    frame: u16,
) -> EncodedStripe {
    EncodedStripe {
        data,
        data_type: DATA_TYPE_H264,
        codec: settings.codec,
        stripe_y_start: 0,
        stripe_height: settings.height,
        frame_id: frame as i32,
        timing: FrameTiming { capture_ns: 0, encode_start_ns: 0, encode_end_ns: 0 },
    }
}

fn cpu_name(library: &str) -> (s: String)
    ensures
        s@ == "CPU ("@ + library@ + ")"@,
{
    let mut s = "CPU (".to_owned();
    s.append(library);
    s.append(")");
    s
}

fn session_fullcolor(hw: &Option<FrameEncoder>, asked: bool) -> (b: bool)
    ensures
        b == carries_fullcolor(*hw, asked),
{
    match hw {
        Some(enc) => if enc.backend == Backend::Nvenc {
            asked
        } else {
            enc.fullcolor
        },
        None => asked && SOFTWARE_H264_FULLCOLOR,
    }
}

/// A requested keyframe is never lost: a frame that delivers nothing leaves the request armed, and
/// only one that delivers something clears it.
pub proof fn unserved_requests_stay_armed(p: X11Pipeline, requested: bool, sent: bool)
    ensures
        requested && !sent ==> p.frame_done(requested, sent).pending_force_idr,
        sent ==> !p.frame_done(requested, sent).pending_force_idr,
{
}

/// One frame that went through a pipeline: whether its content changed, what its encode came to, and
/// the session that followed where that called for one.
pub struct Frame {
    pub changed: bool,
    pub result: FrameResult,
    pub session: Option<FrameEncoder>,
}

/// The pipeline behind a frame.
pub open spec fn after_frame(p: X11Pipeline, f: Frame) -> X11Pipeline {
    let (step, next) = p.planned(f.changed).1.finished(f.result);
    if step == Recovery::Keep {
        next
    } else {
        X11Pipeline { hw: f.session, ..next }
    }
}

/// The pipeline behind a run of frames.
pub open spec fn after_frames(p: X11Pipeline, frames: Seq<Frame>) -> X11Pipeline
    decreases frames.len(),
{
    if frames.len() == 0 {
        p
    } else {
        after_frame(after_frames(p, frames.drop_last()), frames.last())
    }
}

/// A frame whose encode delivered nothing.
pub open spec fn delivers_nothing(f: Frame) -> bool {
    match f.result {
        FrameResult::Encoded(data) => data@.len() == 0,
        FrameResult::Stripes(stripes) => stripes@.len() == 0,
        FrameResult::Failed => true,
        FrameResult::Nothing => true,
    }
}

/// A plan that asks the encoder for a keyframe.
pub open spec fn asks_for_keyframe(plan: FramePlan) -> bool {
    match plan {
        FramePlan::Encode { force_idr, .. } => force_idr,
        FramePlan::Software { force_idr_all } => force_idr_all,
        FramePlan::Skip => false,
    }
}

/// A requested keyframe is asked for again and again, through errors, skips and rebuilds, until a
/// frame delivers something. That frame spends the request: behind it a keyframe is asked for only
/// where one is scheduled, unless it is requested again.
pub proof fn keyframe_requests_last_until_a_frame_is_delivered(
    p: X11Pipeline,
    frames: Seq<Frame>,
    served: Frame,
    changed: bool,
)
    requires
        p.pending_force_idr,
        forall|i: int| 0 <= i < frames.len() ==> delivers_nothing(#[trigger] frames[i]),
        !delivers_nothing(served),
    ensures
        after_frames(p, frames).pending_force_idr,
        asks_for_keyframe(after_frames(p, frames).planned(changed).0),
        ({
            let spent = after_frame(after_frames(p, frames), served);
            &&& !spent.pending_force_idr
            &&& asks_for_keyframe(spent.planned(changed).0) ==> idr_scheduled(
                spent.settings,
                spent.frame_counter,
            )
        }),
    decreases frames.len(),
{
    if frames.len() > 0 {
        let before = frames.drop_last();
        assert(forall|i: int| 0 <= i < before.len() ==> before[i] == frames[i]);
        assert(delivers_nothing(frames[frames.len() - 1]));
        keyframe_requests_last_until_a_frame_is_delivered(p, before, served, changed);
    }
}

/// The pipeline after `n` failed encodes in a row, each recovery step answered with a session.
pub open spec fn after_failures(p: X11Pipeline, hw: Option<FrameEncoder>, n: nat) -> X11Pipeline
    decreases n,
{
    if n == 0 {
        p
    } else {
        X11Pipeline { hw, ..after_failures(p, hw, (n - 1) as nat).after_failure().1 }
    }
}

/// The ladder ends: from a working session, the thirtieth failure in a row rebuilds, the sixtieth
/// demotes to software, and no failure before or between does either.
pub proof fn failing_session_is_rebuilt_once_then_demoted(
    p: X11Pipeline,
    hw: Option<FrameEncoder>,
    n: nat,
)
    requires
        p.hw_error_streak == 0,
        !p.hw_rebuilt,
        n < 60,
    ensures
        after_failures(p, hw, n).after_failure().0 == if n == 29 {
            Recovery::Rebuild
        } else if n == 59 {
            Recovery::Demote
        } else {
            Recovery::Keep
        },
        n == 59 ==> after_failures(p, hw, n).after_failure().1.settings.use_cpu,
{
    failures_count(p, hw, n);
}

proof fn failures_count(p: X11Pipeline, hw: Option<FrameEncoder>, n: nat)
    requires
        p.hw_error_streak == 0,
        !p.hw_rebuilt,
        n < 60,
    ensures
        after_failures(p, hw, n).hw_error_streak == if n < 30 {
            n
        } else {
            (n - 30) as nat
        },
        after_failures(p, hw, n).hw_rebuilt == (n >= 30),
    decreases n,
{
    if n > 0 {
        failures_count(p, hw, (n - 1) as nat);
    }
}

} // verus!
