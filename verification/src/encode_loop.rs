//! The encode thread of the readback paths: it drains published frames and runs the whole encode
//! decision, owning the encoders for the life of the capture.
//!
//! Each frame first takes in what other threads changed, the keyframe request last, so that a
//! request that came while the frame was in flight lands on it. A hardware session then encodes
//! the frames the send policy lets through: NVENC takes the packed rows as they are, VA-API gets
//! them converted into planes. Without a session the software encoder runs with the compositor's
//! damage. A session that keeps failing is rebuilt once and then given up for software, and a
//! keyframe request that no frame answered stays armed.

use vstd::prelude::*;
use vstd::string::*;
use crate::csc;
use crate::csc::{convert, hw_plane_buffer};
use crate::encoders;
use crate::encoders::{
    colorspace_desc, Codec, EncodedStripe, FrameTiming, StripeState, DATA_TYPE_H264,
    HW_ERROR_RECOVERY_THRESHOLD, SOFTWARE_H264_ENCODER, SOFTWARE_H264_FULLCOLOR,
};
use crate::gpu;
use crate::gpu::driver_selects_nvenc;
use crate::pipeline;
use crate::pipeline::{decide_hw_fullframe, periodic_idr_due};
use crate::pool::{Rect, WlFrame};
use crate::recording_sink::RecordingSink;
use crate::settings::{LiveTunables, RustCaptureSettings};
use crate::text;
use crate::text::{append_signed, append_unsigned};

verus! {

/// A hardware session.
#[derive(Clone, Copy, Debug, PartialEq, Eq, Structural)]
pub enum GpuEncoder {
    Nvenc,
    /// A VA-API session, and whether it carries 4:4:4.
    Vaapi { fullcolor: bool },
}

/// The chroma format a session carries, which is not always the one asked for.
pub open spec fn carries_444(session: Option<GpuEncoder>, asked: bool) -> bool {
    match session {
        Some(GpuEncoder::Vaapi { fullcolor }) => fullcolor,
        Some(GpuEncoder::Nvenc) => asked,
        None => asked && SOFTWARE_H264_FULLCOLOR,
    }
}

/// The chroma format a session carries: NVENC takes 4:4:4 whenever asked, VA-API only where the
/// device does, and software where its encoder does. Every consumer reads it from here, so they
/// cannot disagree.
pub fn encoder_fullcolor(session: Option<GpuEncoder>, settings: &RustCaptureSettings) -> (b: bool)
    ensures
        b == carries_444(session, settings.video_fullcolor),
{
    match session {
        Some(GpuEncoder::Vaapi { fullcolor }) => fullcolor,
        Some(GpuEncoder::Nvenc) => settings.video_fullcolor,
        None => settings.video_fullcolor && SOFTWARE_H264_FULLCOLOR,
    }
}

/// The device a session is opened on: one that was not chosen is the first.
pub fn encode_device(settings: &RustCaptureSettings) -> (i: i32)
    ensures
        i == if settings.encode_node_index < 0 {
            0
        } else {
            settings.encode_node_index
        },
{
    if settings.encode_node_index < 0 {
        0
    } else {
        settings.encode_node_index
    }
}

/// What building a session takes next.
#[derive(Clone, Copy, Debug, PartialEq, Eq, Structural)]
pub enum BuildStep {
    /// Reconfigure the session handed over in place, sparing the stream a rebuild.
    Reconfigure,
    OpenNvenc,
    OpenVaapi,
    /// The session, or none: software.
    Done(Option<GpuEncoder>),
}

/// What opening or reconfiguring a session came to.
#[derive(Clone, Copy, Debug, PartialEq, Eq, Structural)]
pub enum Opened {
    /// It is up, and carries 4:4:4 or not.
    Up { fullcolor: bool },
    Failed,
}

/// The first thing to try on a device: an NVENC session handed over, else a new one, where the
/// driver routes to NVENC; else VA-API.
pub open spec fn device_step(driver: Seq<char>, prior: Option<GpuEncoder>) -> BuildStep {
    if gpu::selects_nvenc(driver) {
        if prior == Some(GpuEncoder::Nvenc) {
            BuildStep::Reconfigure
        } else {
            BuildStep::OpenNvenc
        }
    } else {
        BuildStep::OpenVaapi
    }
}

/// The first thing to try for a session on a device.
pub fn open_on_device(encode_driver: &str, prior: Option<GpuEncoder>) -> (step: BuildStep)
    ensures
        step == device_step(encode_driver@, prior),
{
    if driver_selects_nvenc(encode_driver) {
        match prior {
            Some(GpuEncoder::Nvenc) => BuildStep::Reconfigure,
            _ => BuildStep::OpenNvenc,
        }
    } else {
        BuildStep::OpenVaapi
    }
}

/// The first thing to try for a readback session: nothing without hardware, and nothing for a 4:4:4
/// request off NVENC, which VA-API cannot do reliably and software takes; else what the device takes.
pub open spec fn first_step(
    try_gpu: bool,
    fullcolor: bool,
    driver: Seq<char>,
    prior: Option<GpuEncoder>,
) -> BuildStep {
    if !try_gpu || (fullcolor && !gpu::selects_nvenc(driver)) {
        BuildStep::Done(None)
    } else {
        device_step(driver, prior)
    }
}

/// Build the readback session on the thread that will own it: the first thing to try.
/// `fullcolor` says whether 4:4:4 was asked for.
pub fn build_readback_encoders(
    try_gpu: bool,
    fullcolor: bool,
    encode_driver: &str,
    prior: Option<GpuEncoder>,
) -> (step: BuildStep)
    ensures
        step == first_step(try_gpu, fullcolor, encode_driver@, prior),
{
    if !try_gpu {
        return BuildStep::Done(None);
    }
    if fullcolor && !driver_selects_nvenc(encode_driver) {
        return BuildStep::Done(None);
    }
    open_on_device(encode_driver, prior)
}

/// Rebuild a broken zero-copy session as it was first built: what the device takes, with nothing
/// handed over.
pub fn rebuild_zerocopy_encoder(encode_driver: &str) -> (step: BuildStep)
    ensures
        step == device_step(encode_driver@, None),
{
    open_on_device(encode_driver, None)
}

/// What comes after a try: a session handed over that cannot be reconfigured is rebuilt; a new one
/// that does not open leaves software.
pub open spec fn next_step(step: BuildStep, opened: Opened) -> BuildStep {
    match step {
        BuildStep::Reconfigure => match opened {
            Opened::Up { fullcolor: _ } => BuildStep::Done(Some(GpuEncoder::Nvenc)),
            Opened::Failed => BuildStep::OpenNvenc,
        },
        BuildStep::OpenNvenc => match opened {
            Opened::Up { fullcolor: _ } => BuildStep::Done(Some(GpuEncoder::Nvenc)),
            Opened::Failed => BuildStep::Done(None),
        },
        BuildStep::OpenVaapi => match opened {
            Opened::Up { fullcolor } => BuildStep::Done(Some(GpuEncoder::Vaapi { fullcolor })),
            Opened::Failed => BuildStep::Done(None),
        },
        BuildStep::Done(session) => BuildStep::Done(session),
    }
}

/// What comes after a try.
pub fn build_next(step: BuildStep, opened: Opened) -> (next: BuildStep)
    ensures
        next == next_step(step, opened),
{
    match step {
        BuildStep::Reconfigure => match opened {
            Opened::Up { fullcolor: _ } => BuildStep::Done(Some(GpuEncoder::Nvenc)),
            Opened::Failed => BuildStep::OpenNvenc,
        },
        BuildStep::OpenNvenc => match opened {
            Opened::Up { fullcolor: _ } => BuildStep::Done(Some(GpuEncoder::Nvenc)),
            Opened::Failed => BuildStep::Done(None),
        },
        BuildStep::OpenVaapi => match opened {
            Opened::Up { fullcolor } => BuildStep::Done(Some(GpuEncoder::Vaapi { fullcolor })),
            Opened::Failed => BuildStep::Done(None),
        },
        BuildStep::Done(session) => BuildStep::Done(session),
    }
}

/// Building a session is over after two tries at most, and a first try that succeeds ends it with a
/// session.
pub proof fn building_comes_to_an_end(
    driver: Seq<char>,
    prior: Option<GpuEncoder>,
    a: Opened,
    b: Opened,
)
    ensures
        next_step(next_step(device_step(driver, prior), a), b) is Done,
        a is Up ==> {
            &&& next_step(device_step(driver, prior), a) is Done
            &&& next_step(device_step(driver, prior), a)->Done_0 is Some
        },
{
}

/// A readback session is tried exactly where hardware is wanted and, off NVENC, 4:4:4 is not; and
/// no 4:4:4 request ends on a VA-API session, whatever the device answers.
pub proof fn full_colour_is_not_read_back_into_vaapi(
    try_gpu: bool,
    fullcolor: bool,
    driver: Seq<char>,
    prior: Option<GpuEncoder>,
    a: Opened,
    b: Opened,
)
    ensures
        first_step(try_gpu, fullcolor, driver, prior) is Done <==> !try_gpu || (fullcolor
            && !gpu::selects_nvenc(driver)),
        first_step(try_gpu, fullcolor, driver, prior) is Done ==> first_step(
            try_gpu,
            fullcolor,
            driver,
            prior,
        ) == BuildStep::Done(None),
        fullcolor ==> !(next_step(
            next_step(first_step(try_gpu, fullcolor, driver, prior), a),
            b,
        )->Done_0 matches Some(GpuEncoder::Vaapi { .. })),
{
}

/// What other threads change under the encode thread.
#[derive(Debug)]
pub struct WlEncodeControls {
    pub rate_dirty: bool,
    pub bitrate_kbps: i32,
    pub vbv_mult_milli: i32,
    pub fps_milli: u32,
    pub force_idr: bool,
    pub tunables_dirty: bool,
    pub tunables: Option<LiveTunables>,
}

impl WlEncodeControls {
    pub fn new() -> (c: WlEncodeControls)
        ensures
            c == (WlEncodeControls {
                rate_dirty: false,
                bitrate_kbps: 0,
                vbv_mult_milli: 0,
                fps_milli: 0,
                force_idr: false,
                tunables_dirty: false,
                tunables: None,
            }),
    {
        WlEncodeControls {
            rate_dirty: false,
            bitrate_kbps: 0,
            vbv_mult_milli: 0,
            fps_milli: 0,
            force_idr: false,
            tunables_dirty: false,
            tunables: None,
        }
    }

    /// The rate of a settings value, the frame rate at least one a second.
    pub fn seed_rate(&mut self, settings: &RustCaptureSettings)
        ensures
            *final(self) == (WlEncodeControls {
                bitrate_kbps: settings.video_bitrate_kbps,
                vbv_mult_milli: settings.video_vbv_multiplier_milli,
                fps_milli: encoders::budget_fps_milli(settings.target_fps_milli) as u32,
                ..*old(self)
            }),
    {
        self.bitrate_kbps = settings.video_bitrate_kbps;
        self.vbv_mult_milli = settings.video_vbv_multiplier_milli;
        self.fps_milli = if settings.target_fps_milli < 1000 {
            1000
        } else {
            settings.target_fps_milli
        };
    }

    /// A keyframe is asked for.
    pub fn request_idr(&mut self)
        ensures
            *final(self) == (WlEncodeControls { force_idr: true, ..*old(self) }),
    {
        self.force_idr = true;
    }

    /// The settings once pending tunables are taken in.
    pub open spec fn tuned(self, s: RustCaptureSettings) -> RustCaptureSettings {
        if self.tunables_dirty && self.tunables is Some {
            self.tunables->0.applied(s)
        } else {
            s
        }
    }

    /// The settings once a pending rate is taken in; no frame rate leaves the one there is.
    pub open spec fn rated(self, s: RustCaptureSettings) -> RustCaptureSettings {
        if self.rate_dirty {
            RustCaptureSettings {
                video_bitrate_kbps: self.bitrate_kbps,
                video_vbv_multiplier_milli: self.vbv_mult_milli,
                target_fps_milli: if self.fps_milli > 0 {
                    self.fps_milli
                } else {
                    s.target_fps_milli
                },
                ..s
            }
        } else {
            s
        }
    }

    fn take_tunables(&mut self, s: &mut RustCaptureSettings)
        ensures
            *final(s) == old(self).tuned(*old(s)),
            *final(self) == (WlEncodeControls {
                tunables_dirty: false,
                tunables: if old(self).tunables_dirty {
                    None
                } else {
                    old(self).tunables
                },
                ..*old(self)
            }),
    {
        if self.tunables_dirty {
            self.tunables_dirty = false;
            if let Some(t) = self.tunables.take() {
                t.apply_to(s);
            }
        }
    }

    fn take_rate(&mut self, s: &mut RustCaptureSettings)
        ensures
            *final(s) == old(self).rated(*old(s)),
            *final(self) == (WlEncodeControls { rate_dirty: false, ..*old(self) }),
    {
        if self.rate_dirty {
            self.rate_dirty = false;
            s.video_bitrate_kbps = self.bitrate_kbps;
            s.video_vbv_multiplier_milli = self.vbv_mult_milli;
            if self.fps_milli > 0 {
                s.target_fps_milli = self.fps_milli;
            }
        }
    }

    /// The controls once everything pending is taken in.
    pub open spec fn applied(self) -> WlEncodeControls {
        WlEncodeControls {
            rate_dirty: false,
            tunables_dirty: false,
            tunables: if self.tunables_dirty {
                None
            } else {
                self.tunables
            },
            ..self
        }
    }
}

/// How one frame is encoded.
#[derive(Debug)]
pub enum EncodePlan {
    /// Nothing changed and nobody waits: the frame is not sent.
    Skip,
    /// The session takes the packed rows.
    Packed { qp: u32, force_idr: bool },
    /// The session takes the planes that the rows were converted into.
    Planes { qp: u32, force_idr: bool },
    /// The rows could not be converted: a failed encode, since stale planes are not submitted.
    Unconverted,
    /// The software encoder runs, with this damage.
    Software { damage: Vec<Rect>, force_idr: bool },
}

/// What an encode came to.
#[derive(Debug)]
pub enum Encoded {
    /// The session's bytes; none where it holds them back.
    Data(Vec<u8>),
    /// The session failed.
    Failed,
    /// What the software encoder sends.
    Stripes(Vec<EncodedStripe>),
}

/// What a failing session is due.
#[derive(Clone, Copy, Debug, PartialEq, Eq, Structural)]
pub enum Recovery {
    /// Nothing yet.
    Keep,
    /// Release it and open another.
    Rebuild,
    /// Release it and go on in software.
    Demote,
}

/// An outcome answers a plan: a session answers with bytes or a failure, software with stripes,
/// and a frame that could not be converted has failed.
pub open spec fn answers(plan: EncodePlan, result: Encoded) -> bool {
    match plan {
        EncodePlan::Skip => true,
        EncodePlan::Packed { .. } => result is Data || result is Failed,
        EncodePlan::Planes { .. } => result is Data || result is Failed,
        EncodePlan::Unconverted => result is Failed,
        EncodePlan::Software { .. } => result is Stripes,
    }
}

/// How a session's failures stand after one more: the count of them, and what is due. At the
/// threshold the count starts over, and a session that was rebuilt already is given up.
pub open spec fn failed_again(streak: u32, rebuilt: bool) -> (u32, Recovery) {
    if streak + 1 >= HW_ERROR_RECOVERY_THRESHOLD {
        (
            0,
            if rebuilt {
                Recovery::Demote
            } else {
                Recovery::Rebuild
            },
        )
    } else {
        ((streak + 1) as u32, Recovery::Keep)
    }
}

/// The encode thread's own state.
#[derive(Debug)]
pub struct EncodeLoop {
    pub settings: RustCaptureSettings,
    /// The rows come from the GPU, in the one colour order; from the software framebuffer they
    /// come in the other.
    pub use_gpu: bool,
    pub session: Option<GpuEncoder>,
    pub hw_state: StripeState,
    /// The session's own chroma, which the planes are laid out for.
    pub hw_fullcolor: bool,
    pub planes: Vec<u8>,
    pub hw_error_streak: u32,
    pub hw_rebuilt: bool,
}

/// A settings value whose frame the planes can be sized for.
pub open spec fn sized(s: RustCaptureSettings) -> bool {
    &&& 0 <= s.width <= 0x3fff_ffff
    &&& 0 <= s.height
    &&& s.width * s.height <= i32::MAX
    &&& s.width * s.height * 3 <= usize::MAX
}

/// What the planes of a session take: nothing but for VA-API.
pub open spec fn session_planes(
    session: Option<GpuEncoder>,
    s: RustCaptureSettings,
    fullcolor: bool,
) -> int {
    if session is Some && session->0 is Vaapi {
        csc::planes_len(s.width * s.height, fullcolor)
    } else {
        0
    }
}

impl EncodeLoop {
    /// The chroma and the planes are the session's own, and no streak stands at the threshold.
    pub open spec fn wf(&self) -> bool {
        &&& sized(self.settings)
        &&& self.hw_fullcolor == carries_444(self.session, self.settings.video_fullcolor)
        &&& self.planes@.len() == session_planes(self.session, self.settings, self.hw_fullcolor)
        &&& self.hw_error_streak < HW_ERROR_RECOVERY_THRESHOLD
    }

    /// The state of a capture that starts with this session.
    pub fn new(
        settings: RustCaptureSettings,
        use_gpu: bool,
        session: Option<GpuEncoder>,
    ) -> (l: EncodeLoop)
        requires
            sized(settings),
        ensures
            l.wf(),
            l.settings == settings,
            l.use_gpu == use_gpu,
            l.session == session,
            l.hw_state == pipeline::fresh_stripe(),
            l.hw_error_streak == 0,
            !l.hw_rebuilt,
    {
        let hw_fullcolor = encoder_fullcolor(session, &settings);
        let planes = planes_of(session, &settings, hw_fullcolor);
        EncodeLoop {
            settings,
            use_gpu,
            session,
            hw_state: StripeState::default(),
            hw_fullcolor,
            planes,
            hw_error_streak: 0,
            hw_rebuilt: false,
        }
    }

    /// Take in what other threads changed. Returns whether the session's own rate has to be
    /// reconfigured.
    pub fn apply_controls(&mut self, controls: &mut WlEncodeControls) -> (reconfigure: bool)
        requires
            old(self).wf(),
        ensures
            final(self).wf(),
            final(self).settings == old(controls).rated(old(controls).tuned(old(self).settings)),
            *final(controls) == old(controls).applied(),
            reconfigure == (old(controls).rate_dirty && old(self).session is Some),
            final(self).use_gpu == old(self).use_gpu,
            final(self).session == old(self).session,
            final(self).hw_state == old(self).hw_state,
            final(self).hw_fullcolor == old(self).hw_fullcolor,
            final(self).planes == old(self).planes,
            final(self).hw_error_streak == old(self).hw_error_streak,
            final(self).hw_rebuilt == old(self).hw_rebuilt,
    {
        let ghost before = self.settings;
        let rate = controls.rate_dirty;
        controls.take_tunables(&mut self.settings);
        controls.take_rate(&mut self.settings);
        let ghost after = self.settings;
        assert(after.width == before.width && after.height == before.height);
        assert(after.video_fullcolor == before.video_fullcolor);
        rate && self.session.is_some()
    }

    /// A VA-API session could not be re-opened at the new rate: the next encode fails, and that
    /// failure runs the recovery at once instead of after a window of dead frames.
    pub fn rate_failed(&mut self)
        requires
            old(self).wf(),
        ensures
            final(self).wf(),
            final(self).hw_error_streak == HW_ERROR_RECOVERY_THRESHOLD - 1,
            final(self).settings == old(self).settings,
            final(self).use_gpu == old(self).use_gpu,
            final(self).session == old(self).session,
            final(self).hw_state == old(self).hw_state,
            final(self).hw_fullcolor == old(self).hw_fullcolor,
            final(self).planes == old(self).planes,
            final(self).hw_rebuilt == old(self).hw_rebuilt,
    {
        self.hw_error_streak = HW_ERROR_RECOVERY_THRESHOLD - 1;
    }

    /// A keyframe is asked for: by the controls, or by a recorder that connected.
    pub open spec fn asked(controls: WlEncodeControls, sink: Option<RecordingSink>) -> bool {
        controls.force_idr || (sink is Some && sink->0.client_connected)
    }

    /// How a frame is encoded, where a keyframe was asked for or not.
    pub open spec fn planned(self, frame: WlFrame, asked: bool, plan: EncodePlan) -> bool {
        let scheduled = pipeline::idr_scheduled(self.settings, frame.frame_id);
        let d = pipeline::decision(
            self.hw_state,
            self.settings,
            frame.damage@.len() != 0,
            frame.is_animated,
            asked || scheduled,
        );
        match self.session {
            Some(session) => if !d.send {
                plan is Skip
            } else if session == GpuEncoder::Nvenc {
                plan == (EncodePlan::Packed { qp: d.target_qp, force_idr: d.force_idr })
            } else if csc::convertible(
                frame.buf@,
                self.settings.width as u32,
                self.settings.height as u32,
                self.hw_fullcolor,
            ) {
                plan == (EncodePlan::Planes { qp: d.target_qp, force_idr: d.force_idr })
            } else {
                plan is Unconverted
            },
            None => {
                &&& plan is Software
                &&& plan->Software_damage@ == if frame.is_animated {
                    frame.damage@.push(
                        Rect {
                            x: 0,
                            y: 0,
                            w: self.settings.width,
                            h: self.settings.height,
                        },
                    )
                } else {
                    frame.damage@
                }
                &&& plan->Software_force_idr == (asked || (self.settings.output_mode == 1
                    && scheduled))
            },
        }
    }

    /// Decide how a frame is encoded. The keyframe request is taken as late as possible; a
    /// recorder's is left for later where another is pending. Returns the plan, and whether a
    /// keyframe was asked for.
    pub fn plan(
        &mut self,
        controls: &mut WlEncodeControls,
        sink: &mut Option<RecordingSink>,
        frame: &WlFrame,
    ) -> (r: (EncodePlan, bool))
        requires
            old(self).wf(),
            old(self).session is Some ==> pipeline::countable(
                old(self).hw_state,
                old(self).settings,
                frame.damage@.len() != 0,
                frame.is_animated,
                EncodeLoop::asked(*old(controls), *old(sink)) || pipeline::idr_scheduled(
                    old(self).settings,
                    frame.frame_id,
                ),
            ),
        ensures
            final(self).wf(),
            r.1 == EncodeLoop::asked(*old(controls), *old(sink)),
            old(self).planned(*frame, r.1, r.0),
            *final(controls) == (WlEncodeControls { force_idr: false, ..*old(controls) }),
            *final(sink) == match *old(sink) {
                Some(s) => Some(
                    RecordingSink {
                        client_connected: s.client_connected && old(controls).force_idr,
                        ..s
                    },
                ),
                None => None,
            },
            final(self).hw_state == if old(self).session is Some {
                pipeline::decided(
                    old(self).hw_state,
                    old(self).settings,
                    frame.damage@.len() != 0,
                    frame.is_animated,
                    r.1 || pipeline::idr_scheduled(old(self).settings, frame.frame_id),
                )
            } else {
                old(self).hw_state
            },
            final(self).settings == old(self).settings,
            final(self).use_gpu == old(self).use_gpu,
            final(self).session == old(self).session,
            final(self).hw_fullcolor == old(self).hw_fullcolor,
            r.0 !is Planes ==> final(self).planes@ == old(self).planes@,
            r.0 is Planes ==> csc::converted(
                frame.buf@,
                old(self).settings.width as u32,
                old(self).settings.height as u32,
                old(self).hw_fullcolor,
                old(self).use_gpu,
                final(self).planes@,
            ),
            final(self).hw_error_streak == old(self).hw_error_streak,
            final(self).hw_rebuilt == old(self).hw_rebuilt,
    {
        let mut asked = controls.force_idr;
        controls.force_idr = false;
        if !asked {
            if let Some(s) = sink {
                asked = s.should_force_idr();
            }
        }
        let session = match self.session {
            None => {
                let mut damage: Vec<Rect> = Vec::new();
                let mut i: usize = 0;
                while i < frame.damage.len()
                    invariant
                        i <= frame.damage@.len(),
                        damage@ == frame.damage@.take(i as int),
                    decreases frame.damage@.len() - i,
                {
                    damage.push(frame.damage[i]);
                    i += 1;
                }
                assert(damage@ =~= frame.damage@);
                if frame.is_animated {
                    damage.push(
                        Rect { x: 0, y: 0, w: self.settings.width, h: self.settings.height },
                    );
                }
                let force_idr = asked || (self.settings.output_mode == 1 && periodic_idr_due(
                    &self.settings,
                    frame.frame_id,
                ));
                return (EncodePlan::Software { damage, force_idr }, asked);
            },
            Some(session) => session,
        };
        let d = decide_hw_fullframe(
            &mut self.hw_state,
            &self.settings,
            frame.frame_id,
            frame.damage.len() != 0,
            frame.is_animated,
            asked,
        );
        if !d.send {
            return (EncodePlan::Skip, asked);
        }
        match session {
            GpuEncoder::Nvenc => (
                EncodePlan::Packed { qp: d.target_qp, force_idr: d.force_idr },
                asked,
            ),
            GpuEncoder::Vaapi { fullcolor: _ } => {
                let ok = convert(
                    &mut self.planes,
                    frame.buf.as_slice(),
                    self.settings.width,
                    self.settings.height,
                    self.hw_fullcolor,
                    self.use_gpu,
                );
                if ok {
                    (EncodePlan::Planes { qp: d.target_qp, force_idr: d.force_idr }, asked)
                } else {
                    (EncodePlan::Unconverted, asked)
                }
            },
        }
    }

    /// The stripes that an encode sends: the session's bytes as one stripe of the whole frame.
    pub open spec fn sent(
        self,
        plan: EncodePlan,
        result: Encoded,
        frame_id: u16,
        timing: FrameTiming,
        out: Seq<EncodedStripe>,
    ) -> bool {
        match (plan, result) {
            (EncodePlan::Skip, _) => out.len() == 0,
            (_, Encoded::Failed) => out.len() == 0,
            (_, Encoded::Stripes(stripes)) => out == stripes@,
            (_, Encoded::Data(data)) => if data@.len() == 0 {
                out.len() == 0
            } else {
                &&& out.len() == 1
                &&& out[0].data@ == data@
                &&& out[0].data_type == DATA_TYPE_H264
                &&& out[0].codec == Codec::H264
                &&& out[0].stripe_y_start == 0
                &&& out[0].stripe_height == self.settings.height
                &&& out[0].frame_id == frame_id
                &&& out[0].timing == timing
            },
        }
    }

    /// Account for what an encode came to. Returns what is sent and what the session is due;
    /// where that is a rebuild or software, the session is released and `install` follows. A
    /// request that no frame answered is armed again: on an infinite GOP it would never
    /// self-heal.
    pub fn finish(
        &mut self,
        controls: &mut WlEncodeControls,
        plan: EncodePlan,
        asked: bool,
        result: Encoded,
        frame_id: u16,
        timing: FrameTiming,
    ) -> (r: (Vec<EncodedStripe>, Recovery))
        requires
            old(self).wf(),
            answers(plan, result),
        ensures
            final(self).wf(),
            old(self).sent(plan, result, frame_id, timing, r.0@),
            r.1 == if plan !is Skip && result is Failed {
                failed_again(old(self).hw_error_streak, old(self).hw_rebuilt).1
            } else {
                Recovery::Keep
            },
            final(self).hw_error_streak == if plan is Skip || result is Stripes {
                old(self).hw_error_streak
            } else if result is Failed {
                failed_again(old(self).hw_error_streak, old(self).hw_rebuilt).0
            } else {
                0
            },
            final(self).hw_rebuilt == (old(self).hw_rebuilt && (plan is Skip || result !is Data)),
            final(self).session == if r.1 == Recovery::Keep {
                old(self).session
            } else {
                None
            },
            *final(controls) == (WlEncodeControls {
                force_idr: old(controls).force_idr || (asked && r.0@.len() == 0),
                ..*old(controls)
            }),
            final(self).settings == old(self).settings,
            final(self).use_gpu == old(self).use_gpu,
            final(self).hw_state == old(self).hw_state,
    {
        let mut out: Vec<EncodedStripe> = Vec::new();
        let mut due = Recovery::Keep;
        match plan {
            EncodePlan::Skip => {},
            _ => match result {
                Encoded::Stripes(stripes) => {
                    out = stripes;
                },
                Encoded::Data(data) => {
                    self.hw_error_streak = 0;
                    self.hw_rebuilt = false;
                    if data.len() != 0 {
                        out.push(
                            EncodedStripe {
                                data,
                                data_type: DATA_TYPE_H264,
                                codec: Codec::H264,
                                stripe_y_start: 0,
                                stripe_height: self.settings.height,
                                frame_id: frame_id as i32,
                                timing,
                            },
                        );
                    }
                },
                Encoded::Failed => {
                    self.hw_error_streak = self.hw_error_streak + 1;
                    if self.hw_error_streak >= HW_ERROR_RECOVERY_THRESHOLD {
                        self.hw_error_streak = 0;
                        due = if self.hw_rebuilt {
                            Recovery::Demote
                        } else {
                            Recovery::Rebuild
                        };
                        self.session = None;
                        self.hw_fullcolor = encoder_fullcolor(None, &self.settings);
                        self.planes = Vec::new();
                    }
                },
            },
        }
        if asked && out.len() == 0 {
            controls.force_idr = true;
        }
        (out, due)
    }

    /// Whether a failure is told: the first of a window, since a session failing at frame rate
    /// would otherwise write a line a frame.
    pub fn tells_failure(&self) -> (b: bool)
        ensures
            b == (self.hw_error_streak % HW_ERROR_RECOVERY_THRESHOLD == 0),
    {
        self.hw_error_streak % HW_ERROR_RECOVERY_THRESHOLD == 0
    }

    /// Go on with the session that recovery built, or in software. A rebuild counts as recovery
    /// only until the next streak. The new stream opens with a keyframe.
    pub fn install(
        &mut self,
        controls: &mut WlEncodeControls,
        due: Recovery,
        built: Option<GpuEncoder>,
    )
        requires
            old(self).wf(),
        ensures
            final(self).wf(),
            final(self).session == built,
            final(self).hw_rebuilt == (due == Recovery::Rebuild && built is Some),
            *final(controls) == (WlEncodeControls { force_idr: true, ..*old(controls) }),
            final(self).settings == old(self).settings,
            final(self).use_gpu == old(self).use_gpu,
            final(self).hw_state == old(self).hw_state,
            final(self).hw_error_streak == old(self).hw_error_streak,
    {
        self.session = built;
        self.hw_rebuilt = due == Recovery::Rebuild && built.is_some();
        self.hw_fullcolor = encoder_fullcolor(built, &self.settings);
        self.planes = planes_of(built, &self.settings, self.hw_fullcolor);
        controls.force_idr = true;
    }
}

fn planes_of(
    session: Option<GpuEncoder>,
    settings: &RustCaptureSettings,
    fullcolor: bool,
) -> (planes: Vec<u8>)
    requires
        sized(*settings),
    ensures
        planes@.len() == session_planes(session, *settings, fullcolor),
{
    let planar = match session {
        Some(GpuEncoder::Vaapi { fullcolor: _ }) => true,
        _ => false,
    };
    proof {
        let (w, h) = (settings.width as int, settings.height as int);
        assert(0 <= w * h) by (nonlinear_arith)
            requires
                0 <= w,
                0 <= h,
        ;
    }
    hw_plane_buffer(settings.width, settings.height, fullcolor, planar)
}

/// A keyframe request is never lost: a frame is sent, or the request stands for the next one.
pub proof fn requests_stay_armed_until_answered(
    before: WlEncodeControls,
    after: WlEncodeControls,
    asked: bool,
    sent: nat,
)
    requires
        after.force_idr == (before.force_idr || (asked && sent == 0)),
    ensures
        asked ==> sent > 0 || after.force_idr,
        before.force_idr ==> after.force_idr,
{
}

/// The failures of a session that answers no frame: the count after `n` of them, and how many
/// recoveries they ran, the first a rebuild that worked and opened the same session again.
pub open spec fn after_failures(streak: u32, rebuilt: bool, n: nat) -> (u32, bool, Recovery)
    decreases n,
{
    if n == 0 {
        (streak, rebuilt, Recovery::Keep)
    } else {
        let (s, r, due) = after_failures(streak, rebuilt, (n - 1) as nat);
        if due == Recovery::Demote {
            (s, r, due)
        } else {
            let (next, now) = failed_again(s, r);
            (next, r || now == Recovery::Rebuild, now)
        }
    }
}

/// A session that keeps failing is rebuilt at the thirtieth failure and given up for software at
/// the sixtieth, however the rebuild went: the stream never rebuilds in a loop.
pub proof fn failing_sessions_are_rebuilt_once(n: nat)
    ensures
        n < 30 ==> after_failures(0, false, n) == (n as u32, false, Recovery::Keep),
        n == 30 ==> after_failures(0, false, n) == (0u32, true, Recovery::Rebuild),
        30 < n < 60 ==> after_failures(0, false, n) == ((n - 30) as u32, true, Recovery::Keep),
        n >= 60 ==> after_failures(0, false, n) == (0u32, true, Recovery::Demote),
    decreases n,
{
    if n > 0 {
        failing_sessions_are_rebuilt_once((n - 1) as nat);
    }
}

/// A stream is one contiguous frame: a session's, or software asked for one.
pub fn one_frame(settings: &RustCaptureSettings, session: Option<GpuEncoder>) -> (b: bool)
    ensures
        b == (session is Some || settings.video_fullframe),
{
    session.is_some() || settings.video_fullframe
}

/// The encoder half of the debug line: backend, colour space, frame mode.
pub open spec fn desc_text(
    s: RustCaptureSettings,
    session: Option<GpuEncoder>,
    zero_copy: bool,
) -> Seq<char> {
    if s.output_mode == 0 {
        "JPEG Q:"@ + text::signed_decimal(s.jpeg_quality as int)
    } else {
        let is_444 = carries_444(session, s.video_fullcolor);
        let copy = if zero_copy {
            "ZeroCopy)"@
        } else {
            "Readback)"@
        };
        "H264 ("@ + (match session {
            Some(GpuEncoder::Nvenc) => "NVENC ("@ + copy,
            Some(GpuEncoder::Vaapi { .. }) => "VAAPI ("@ + copy,
            None => "CPU "@ + SOFTWARE_H264_ENCODER@,
        }) + (if is_444 {
            ") CS_IN:I444"@
        } else {
            ") CS_IN:I420"@
        }) + (if is_444 && session is None {
            " FR"@
        } else {
            " LR"@
        }) + (if session is Some || s.video_fullframe {
            " FF"@
        } else {
            " Striped"@
        }) + " CRF:"@ + text::signed_decimal(s.video_crf as int)
    }
}

/// Compose the encoder half of the debug line. Only the software encoder carries 4:4:4 at full
/// range.
pub fn encoder_desc(
    settings: &RustCaptureSettings,
    session: Option<GpuEncoder>,
    zero_copy: bool,
) -> (s: String)
    ensures
        s@ == desc_text(*settings, session, zero_copy),
{
    if settings.output_mode == 0 {
        let mut s = "JPEG Q:".to_owned();
        append_signed(&mut s, settings.jpeg_quality as i64);
        return s;
    }
    let is_444 = encoder_fullcolor(session, settings);
    let copy = if zero_copy {
        "ZeroCopy)"
    } else {
        "Readback)"
    };
    let mut backend = String::new();
    match session {
        Some(GpuEncoder::Nvenc) => {
            backend.append("NVENC (");
            backend.append(copy);
            assert(backend@ =~= "NVENC ("@ + copy@);
        },
        Some(GpuEncoder::Vaapi { fullcolor: _ }) => {
            backend.append("VAAPI (");
            backend.append(copy);
            assert(backend@ =~= "VAAPI ("@ + copy@);
        },
        None => {
            backend.append("CPU ");
            backend.append(SOFTWARE_H264_ENCODER);
            assert(backend@ =~= "CPU "@ + SOFTWARE_H264_ENCODER@);
        },
    }
    let mut s = "H264 (".to_owned();
    s.append(backend.as_str());
    s.append(
        if is_444 {
            ") CS_IN:I444"
        } else {
            ") CS_IN:I420"
        },
    );
    s.append(
        if is_444 && session.is_none() {
            " FR"
        } else {
            " LR"
        },
    );
    s.append(
        if one_frame(settings, session) {
            " FF"
        } else {
            " Striped"
        },
    );
    s.append(" CRF:");
    append_signed(&mut s, settings.video_crf as i64);
    s
}

/// What the settings line says of a JPEG stream.
pub open spec fn jpeg_text(s: RustCaptureSettings) -> Seq<char> {
    " | Mode: JPEG | Quality: "@ + text::signed_decimal(s.jpeg_quality as int) + (
    if s.use_paint_over_quality {
        " | PaintOver Q: "@ + text::signed_decimal(s.paint_over_jpeg_quality as int)
            + " (Trigger: "@ + text::decimal(s.paint_over_trigger_frames as nat) + "f)"@
    } else {
        Seq::empty()
    })
}

/// What the settings line says of an H.264 stream's rate.
pub open spec fn rate_text(s: RustCaptureSettings) -> Seq<char> {
    if s.video_cbr_mode {
        " | CBR "@ + text::signed_decimal(s.video_bitrate_kbps as int)
    } else {
        " | CRF: "@ + text::signed_decimal(s.video_crf as int) + (if s.video_bitrate_kbps > 0 {
            " | VBV: "@ + text::signed_decimal(s.video_bitrate_kbps as int) + " kbps"@
        } else {
            Seq::empty()
        })
    }
}

/// What the settings line says of an H.264 stream's encoder.
pub open spec fn mode_text(s: RustCaptureSettings, session: Option<GpuEncoder>) -> Seq<char> {
    " | Mode: H264 ("@ + (match session {
        Some(GpuEncoder::Nvenc) => "NVENC"@,
        Some(GpuEncoder::Vaapi { .. }) => "VAAPI"@,
        None => SOFTWARE_H264_ENCODER@,
    }) + (if session is Some || s.video_fullframe {
        ") FullFrame"@
    } else {
        ") Striped"@
    }) + (if s.video_streaming_mode {
        " Streaming"@
    } else {
        Seq::empty()
    })
}

/// What the settings line says of an H.264 stream's refresh of still content.
pub open spec fn refresh_text(s: RustCaptureSettings) -> Seq<char> {
    if s.use_paint_over_quality {
        " | PaintOver CRF: "@ + text::signed_decimal(s.video_paintover_crf as int) + " (Burst: "@
            + text::signed_decimal(s.video_paintover_burst_frames as int) + "f)"@
    } else {
        Seq::empty()
    }
}

/// What the settings line says of an H.264 stream.
pub open spec fn video_text(s: RustCaptureSettings, session: Option<GpuEncoder>) -> Seq<char> {
    mode_text(s, session) + rate_text(s) + refresh_text(s) + " | Colorspace: "@
        + encoders::colorspace_text(carries_444(session, s.video_fullcolor), session is None)
}

/// The line that tells a stream's settings.
pub open spec fn settings_text(
    s: RustCaptureSettings,
    fps: Seq<char>,
    stripes: nat,
    session: Option<GpuEncoder>,
) -> Seq<char> {
    "Stream settings active -> Res: "@ + text::signed_decimal(s.width as int) + "x"@
        + text::signed_decimal(s.height as int) + " | FPS: "@ + fps + " | Stripes: "@
        + text::decimal(stripes) + (if s.output_mode == 0 {
        jpeg_text(s)
    } else {
        video_text(s, session)
    }) + " | Damage Thresh: "@ + text::decimal(s.damage_block_threshold as nat)
        + "f | Damage Dur: "@ + text::decimal(s.damage_block_duration as nat) + "f"@
}

fn append_jpeg(out: &mut String, s: &RustCaptureSettings)
    ensures
        final(out)@ == old(out)@ + jpeg_text(*s),
{
    out.append(" | Mode: JPEG | Quality: ");
    append_signed(out, s.jpeg_quality as i64);
    if s.use_paint_over_quality {
        out.append(" | PaintOver Q: ");
        append_signed(out, s.paint_over_jpeg_quality as i64);
        out.append(" (Trigger: ");
        append_unsigned(out, s.paint_over_trigger_frames as u64);
        out.append("f)");
    }
    assert(out@ =~= old(out)@ + jpeg_text(*s));
}

fn append_rate(out: &mut String, s: &RustCaptureSettings)
    ensures
        final(out)@ == old(out)@ + rate_text(*s),
{
    if s.video_cbr_mode {
        out.append(" | CBR ");
        append_signed(out, s.video_bitrate_kbps as i64);
    } else {
        out.append(" | CRF: ");
        append_signed(out, s.video_crf as i64);
        if s.video_bitrate_kbps > 0 {
            out.append(" | VBV: ");
            append_signed(out, s.video_bitrate_kbps as i64);
            out.append(" kbps");
        }
    }
    assert(out@ =~= old(out)@ + rate_text(*s));
}

fn append_mode(out: &mut String, s: &RustCaptureSettings, session: Option<GpuEncoder>)
    ensures
        final(out)@ == old(out)@ + mode_text(*s, session),
{
    out.append(" | Mode: H264 (");
    out.append(
        match session {
            Some(GpuEncoder::Nvenc) => "NVENC",
            Some(GpuEncoder::Vaapi { fullcolor: _ }) => "VAAPI",
            None => SOFTWARE_H264_ENCODER,
        },
    );
    out.append(
        if one_frame(s, session) {
            ") FullFrame"
        } else {
            ") Striped"
        },
    );
    if s.video_streaming_mode {
        out.append(" Streaming");
    }
    assert(out@ =~= old(out)@ + mode_text(*s, session));
}

fn append_refresh(out: &mut String, s: &RustCaptureSettings)
    ensures
        final(out)@ == old(out)@ + refresh_text(*s),
{
    if s.use_paint_over_quality {
        out.append(" | PaintOver CRF: ");
        append_signed(out, s.video_paintover_crf as i64);
        out.append(" (Burst: ");
        append_signed(out, s.video_paintover_burst_frames as i64);
        out.append("f)");
    }
    assert(out@ =~= old(out)@ + refresh_text(*s));
}

fn append_video(out: &mut String, s: &RustCaptureSettings, session: Option<GpuEncoder>)
    ensures
        final(out)@ == old(out)@ + video_text(*s, session),
{
    append_mode(out, s, session);
    append_rate(out, s);
    append_refresh(out, s);
    out.append(" | Colorspace: ");
    out.append(colorspace_desc(encoder_fullcolor(session, s), session.is_none()));
    proof {
        let mode = mode_text(*s, session);
        let rate = rate_text(*s);
        let refresh = refresh_text(*s);
        let colour = encoders::colorspace_text(
            carries_444(session, s.video_fullcolor),
            session is None,
        );
        joined(old(out)@, mode, rate, refresh, " | Colorspace: "@, colour);
    }
}

proof fn joined(
    o: Seq<char>,
    a: Seq<char>,
    b: Seq<char>,
    c: Seq<char>,
    d: Seq<char>,
    e: Seq<char>,
)
    ensures
        o + a + b + c + d + e == o + (a + b + c + d + e),
{
    assert(o + a + b + c + d + e =~= o + (a + b + c + d + e));
}

/// Compose the line that tells a stream's settings, once the selection is final. `fps` is the
/// frame rate as it is shown.
pub fn log_stream_settings(
    settings: &RustCaptureSettings,
    fps: &str,
    n_stripes: usize,
    session: Option<GpuEncoder>,
) -> (out: String)
    ensures
        out@ == settings_text(*settings, fps@, n_stripes as nat, session),
{
    let mut out = "Stream settings active -> Res: ".to_owned();
    append_signed(&mut out, settings.width as i64);
    out.append("x");
    append_signed(&mut out, settings.height as i64);
    out.append(" | FPS: ");
    out.append(fps);
    out.append(" | Stripes: ");
    append_unsigned(&mut out, n_stripes as u64);
    if settings.output_mode == 0 {
        append_jpeg(&mut out, settings);
    } else {
        append_video(&mut out, settings, session);
    }
    out.append(" | Damage Thresh: ");
    append_unsigned(&mut out, settings.damage_block_threshold as u64);
    out.append("f | Damage Dur: ");
    append_unsigned(&mut out, settings.damage_block_duration as u64);
    out.append("f");
    out
}

} // verus!
