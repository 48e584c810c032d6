//! What a capture streams and how it got there, for the caller to show its user: the capture
//! path and whether it is zero-copy, the encoder and whether it is hardware, the GPU behind it,
//! and the reason a faster path was declined.
//!
//! A capture's decisions are spread over the backends and the encoder ladder, so the report a
//! decision lands in is the one bound at the time (`enter`) rather than an argument threaded
//! through every site. A decision made with no report bound, as in a probe, records nothing.

use vstd::prelude::*;
use std::collections::HashMap;
use crate::encoders::{EncodedStripe, FrameTiming};
use crate::settings::RustCaptureSettings;

verus! {

/// The description half of a report. `capture_reason` says why the capture is not zero-copy and
/// `encoder_reason` why the encoder is not hardware; both are empty where there is nothing to
/// explain.
#[derive(Debug)]
pub struct StreamInfo {
    pub backend: &'static str,
    pub capture: &'static str,
    pub zero_copy: bool,
    pub capture_reason: String,
    pub encoder: String,
    pub hardware: bool,
    pub encoder_reason: String,
    pub codec: &'static str,
    pub fullcolor: bool,
    pub full_range: bool,
    pub stripes: usize,
    pub gpu: String,
    pub driver: String,
    pub encode_node: i32,
}

/// A description as plain text and numbers.
#[verifier::ext_equal]
pub struct InfoView {
    pub backend: Seq<char>,
    pub capture: Seq<char>,
    pub zero_copy: bool,
    pub capture_reason: Seq<char>,
    pub encoder: Seq<char>,
    pub hardware: bool,
    pub encoder_reason: Seq<char>,
    pub codec: Seq<char>,
    pub fullcolor: bool,
    pub full_range: bool,
    pub stripes: usize,
    pub gpu: Seq<char>,
    pub driver: Seq<char>,
    pub encode_node: i32,
}

impl View for StreamInfo {
    type V = InfoView;

    open spec fn view(&self) -> InfoView {
        InfoView {
            backend: self.backend@,
            capture: self.capture@,
            zero_copy: self.zero_copy,
            capture_reason: self.capture_reason@,
            encoder: self.encoder@,
            hardware: self.hardware,
            encoder_reason: self.encoder_reason@,
            codec: self.codec@,
            fullcolor: self.fullcolor,
            full_range: self.full_range,
            stripes: self.stripes,
            gpu: self.gpu@,
            driver: self.driver@,
            encode_node: self.encode_node,
        }
    }
}

impl Clone for StreamInfo {
    fn clone(&self) -> (c: Self)
        ensures
            c@ == self@,
    {
        StreamInfo {
            backend: self.backend,
            capture: self.capture,
            zero_copy: self.zero_copy,
            capture_reason: self.capture_reason.clone(),
            encoder: self.encoder.clone(),
            hardware: self.hardware,
            encoder_reason: self.encoder_reason.clone(),
            codec: self.codec,
            fullcolor: self.fullcolor,
            full_range: self.full_range,
            stripes: self.stripes,
            gpu: self.gpu.clone(),
            driver: self.driver.clone(),
            encode_node: self.encode_node,
        }
    }
}

impl InfoView {
    /// A capture of which nothing has been decided.
    pub open spec fn blank(backend: Seq<char>) -> InfoView {
        InfoView {
            backend,
            capture: Seq::empty(),
            zero_copy: false,
            capture_reason: Seq::empty(),
            encoder: Seq::empty(),
            hardware: false,
            encoder_reason: Seq::empty(),
            codec: Seq::empty(),
            fullcolor: false,
            full_range: false,
            stripes: 0,
            gpu: Seq::empty(),
            driver: Seq::empty(),
            encode_node: 0,
        }
    }
}

/// Cumulative counters of a capture since it started.
#[derive(Clone, Copy, Debug, PartialEq, Eq, Structural)]
pub struct StreamTotals {
    pub frames: u64,
    pub bytes: u64,
    pub encode_ns: u64,
    pub pipeline_ns: u64,
}

/// The bytes of a frame over its first `n` stripes.
pub open spec fn stripe_bytes(stripes: Seq<EncodedStripe>, n: int) -> int
    decreases n,
{
    if n <= 0 {
        0
    } else {
        stripe_bytes(stripes, n - 1) + stripes[n - 1].data@.len()
    }
}

/// How long it is from one time to a later one; none where it is not later.
pub open spec fn span(from_ns: i64, to_ns: i64) -> u64 {
    if to_ns > from_ns {
        (to_ns - from_ns) as u64
    } else {
        0
    }
}

/// A counter that starts over past its last value.
pub open spec fn counted(total: u64, more: int) -> u64 {
    ((total + more) % 0x1_0000_0000_0000_0000) as u64
}

impl StreamTotals {
    /// The counters once a frame has been delivered.
    pub open spec fn tallied(self, stripes: Seq<EncodedStripe>) -> StreamTotals {
        if stripes.len() == 0 {
            self
        } else {
            let timing = stripes[0].timing;
            let timed = timing.encode_end_ns > 0;
            StreamTotals {
                frames: counted(self.frames, 1),
                bytes: counted(self.bytes, stripe_bytes(stripes, stripes.len() as int)),
                encode_ns: if timed {
                    counted(
                        self.encode_ns,
                        span(timing.encode_start_ns, timing.encode_end_ns) as int,
                    )
                } else {
                    self.encode_ns
                },
                pipeline_ns: if timed {
                    counted(
                        self.pipeline_ns,
                        span(timing.capture_ns, timing.encode_end_ns) as int,
                    )
                } else {
                    self.pipeline_ns
                },
            }
        }
    }
}

fn count(total: u64, more: u64) -> (r: u64)
    ensures
        r == counted(total, more as int),
{
    ((total as u128 + more as u128) % 0x1_0000_0000_0000_0000) as u64
}

fn elapsed(from_ns: i64, to_ns: i64) -> (r: u64)
    ensures
        r == span(from_ns, to_ns),
{
    if to_ns > from_ns {
        (to_ns as i128 - from_ns as i128) as u64
    } else {
        0
    }
}

/// One capture's description and counters.
#[derive(Debug)]
pub struct StreamReport {
    pub info: StreamInfo,
    pub totals: StreamTotals,
}

impl StreamReport {
    pub fn new(backend: &'static str) -> (r: StreamReport)
        ensures
            r.info@ == InfoView::blank(backend@),
            r.totals == (StreamTotals { frames: 0, bytes: 0, encode_ns: 0, pipeline_ns: 0 }),
    {
        let none: &'static str = "";
        proof {
            reveal_strlit("");
        }
        let r = StreamReport {
            info: StreamInfo {
                backend,
                capture: none,
                zero_copy: false,
                capture_reason: String::new(),
                encoder: String::new(),
                hardware: false,
                encoder_reason: String::new(),
                codec: none,
                fullcolor: false,
                full_range: false,
                stripes: 0,
                gpu: String::new(),
                driver: String::new(),
                encode_node: 0,
            },
            totals: StreamTotals { frames: 0, bytes: 0, encode_ns: 0, pipeline_ns: 0 },
        };
        assert(r.info@ =~= InfoView::blank(backend@));
        r
    }

    pub fn info(&self) -> (i: StreamInfo)
        ensures
            i@ == self.info@,
    {
        self.info.clone()
    }

    pub fn totals(&self) -> (t: StreamTotals)
        ensures
            t == self.totals,
    {
        self.totals
    }

    /// Count one delivered frame: its bytes over every stripe, the time its encode took, and the
    /// time from capture to the end of the encode.
    pub fn tally(&mut self, stripes: &[EncodedStripe])
        ensures
            final(self).totals == old(self).totals.tallied(stripes@),
            final(self).info == old(self).info,
    {
        if stripes.len() == 0 {
            return;
        }
        let mut bytes: u64 = self.totals.bytes;
        let mut i: usize = 0;
        while i < stripes.len()
            invariant
                i <= stripes@.len(),
                bytes == counted(old(self).totals.bytes, stripe_bytes(stripes@, i as int)),
            decreases stripes@.len() - i,
        {
            bytes = count(bytes, stripes[i].data.len() as u64);
            i += 1;
        }
        let timing: FrameTiming = stripes[0].timing;
        let mut encode_ns: u64 = self.totals.encode_ns;
        let mut pipeline_ns: u64 = self.totals.pipeline_ns;
        if timing.encode_end_ns > 0 {
            encode_ns = count(encode_ns, elapsed(timing.encode_start_ns, timing.encode_end_ns));
            pipeline_ns = count(pipeline_ns, elapsed(timing.capture_ns, timing.encode_end_ns));
        }
        self.totals = StreamTotals {
            frames: count(self.totals.frames, 1),
            bytes,
            encode_ns,
            pipeline_ns,
        };
    }
}

/// How the Wayland compositor renders, which every capture of it shares: `gl` on a render node
/// with the renderer's own name for the GPU, or `pixman` in software with the reason.
#[derive(Debug)]
pub struct Renderer {
    pub kind: &'static str,
    pub node: String,
    pub gpu: String,
    pub reason: String,
}

impl Clone for Renderer {
    fn clone(&self) -> (c: Self)
        ensures
            c == *self,
    {
        Renderer {
            kind: self.kind,
            node: self.node.clone(),
            gpu: self.gpu.clone(),
            reason: self.reason.clone(),
        }
    }
}

/// Every report there is, the one that decisions land in, and what the Wayland captures share.
pub struct Reports {
    pub list: Vec<StreamReport>,
    /// The report bound at present.
    pub current: Option<usize>,
    pub renderer: Renderer,
    /// The report of each Wayland display's capture.
    pub wayland: HashMap<u32, usize>,
}

/// The report that was bound before `enter`, for `leave` to restore.
#[derive(Debug)]
pub struct Scope {
    pub previous: Option<usize>,
}

impl Reports {
    /// The report bound is one there is.
    pub open spec fn wf(&self) -> bool {
        self.current matches Some(c) ==> c < self.list@.len()
    }

    /// Nothing but the descriptions differs.
    pub open spec fn same_but_infos(self, other: Reports) -> bool {
        &&& self.list@.len() == other.list@.len()
        &&& forall|i: int|
            0 <= i < self.list@.len() ==> (#[trigger] self.list@[i]).totals
                == other.list@[i].totals
        &&& self.current == other.current
        &&& self.renderer == other.renderer
        &&& self.wayland == other.wayland
    }

    pub fn new() -> (r: Reports)
        ensures
            r.wf(),
            r.list@.len() == 0,
            r.current is None,
            r.wayland@ == Map::<u32, usize>::empty(),
            r.renderer.kind@ == ""@,
            r.renderer.node@.len() == 0,
            r.renderer.gpu@.len() == 0,
            r.renderer.reason@.len() == 0,
    {
        Reports {
            list: Vec::new(),
            current: None,
            renderer: Renderer {
                kind: "",
                node: String::new(),
                gpu: String::new(),
                reason: String::new(),
            },
            wayland: HashMap::new(),
        }
    }

    /// A report for a new capture.
    pub fn open_report(&mut self, backend: &'static str) -> (at: usize)
        requires
            old(self).wf(),
        ensures
            final(self).wf(),
            at == old(self).list@.len(),
            final(self).list@.len() == old(self).list@.len() + 1,
            final(self).list@.take(at as int) == old(self).list@,
            final(self).list@[at as int].info@ == InfoView::blank(backend@),
            final(self).list@[at as int].totals == (StreamTotals {
                frames: 0,
                bytes: 0,
                encode_ns: 0,
                pipeline_ns: 0,
            }),
            final(self).current == old(self).current,
            final(self).renderer == old(self).renderer,
            final(self).wayland == old(self).wayland,
    {
        let at: usize = self.list.len();
        self.list.push(StreamReport::new(backend));
        assert(self.list@.take(at as int) =~= old(self).list@);
        at
    }
}

/// A decision landed: it changed the description of the report bound, where one was, and nothing
/// else.
pub open spec fn landed(
    before: Reports,
    after: Reports,
    change: spec_fn(InfoView) -> InfoView,
) -> bool {
    &&& after.same_but_infos(before)
    &&& forall|i: int|
        0 <= i < before.list@.len() ==> (#[trigger] after.list@[i]).info@ == if before.current
            is Some && before.current->0 == i {
            change(before.list@[i].info@)
        } else {
            before.list@[i].info@
        }
}

/// Bind `report` until `leave`: every decision recorded meanwhile lands in it. The Wayland event
/// loop serves every display, so it binds per capture start and per recovery; a capture's own
/// thread binds once.
pub fn enter(reports: &mut Reports, report: usize) -> (scope: Scope)
    requires
        old(reports).wf(),
        report < old(reports).list@.len(),
    ensures
        final(reports).wf(),
        scope.previous == old(reports).current,
        final(reports).current == Some(report),
        final(reports).list == old(reports).list,
        final(reports).renderer == old(reports).renderer,
        final(reports).wayland == old(reports).wayland,
{
    let previous = reports.current;
    reports.current = Some(report);
    Scope { previous }
}

/// Restore the report that was bound before.
pub fn leave(reports: &mut Reports, scope: Scope)
    requires
        scope.previous matches Some(c) ==> c < old(reports).list@.len(),
    ensures
        final(reports).wf(),
        final(reports).current == scope.previous,
        final(reports).list == old(reports).list,
        final(reports).renderer == old(reports).renderer,
        final(reports).wayland == old(reports).wayland,
{
    reports.current = scope.previous;
}

/// Scopes nest: whatever decision lands while a scope is open, the report bound before is bound
/// again once the scope is left, no other report was touched, and so a decision made afterwards
/// lands where it would have.
pub proof fn scopes_restore_the_outer_binding(
    outer: Reports,
    inside: Reports,
    decided: Reports,
    left: Reports,
    report: usize,
    change: spec_fn(InfoView) -> InfoView,
)
    requires
        outer.wf(),
        report < outer.list@.len(),
        inside.list == outer.list,
        inside.current == Some(report),
        landed(inside, decided, change),
        left.list == decided.list,
        left.current == outer.current,
    ensures
        left.wf(),
        left.current == outer.current,
        left.list@[report as int].info@ == change(outer.list@[report as int].info@),
        forall|i: int|
            0 <= i < outer.list@.len() && i != report ==> (#[trigger] left.list@[i]).info@
                == outer.list@[i].info@,
{
    assert(decided.list@[report as int].info@ == change(inside.list@[report as int].info@));
}

/// A decision made with no report bound is recorded nowhere.
pub proof fn unbound_decisions_land_nowhere(
    before: Reports,
    after: Reports,
    change: spec_fn(InfoView) -> InfoView,
)
    requires
        before.current is None,
        landed(before, after, change),
    ensures
        after.list@.len() == before.list@.len(),
        forall|i: int|
            0 <= i < before.list@.len() ==> (#[trigger] after.list@[i]).info@
                == before.list@[i].info@ && after.list@[i].totals == before.list@[i].totals,
{
}

/// The description once a capture path was taken.
pub open spec fn with_capture(path: Seq<char>, zero_copy: bool) -> spec_fn(InfoView) -> InfoView {
    |i: InfoView|
        InfoView {
            capture: path,
            zero_copy,
            capture_reason: if zero_copy {
                Seq::empty()
            } else {
                i.capture_reason
            },
            ..i
        }
}

/// The capture path taken. A zero-copy path needs no reason, so the ones collected from the paths
/// declined ahead of it are dropped.
pub fn capture(reports: &mut Reports, path: &'static str, zero_copy: bool)
    requires
        old(reports).wf(),
    ensures
        final(reports).wf(),
        landed(*old(reports), *final(reports), with_capture(path@, zero_copy)),
{
    let ghost before = *reports;
    if let Some(c) = reports.current {
        let report = &mut reports.list[c];
        report.info.capture = path;
        report.info.zero_copy = zero_copy;
        if zero_copy {
            report.info.capture_reason = String::new();
        }
        assert(reports.list@[c as int].info@ =~= with_capture(path@, zero_copy)(
            before.list@[c as int].info@,
        ));
    }
}

/// A reason behind those collected so far.
pub open spec fn another_reason(reasons: Seq<char>, path: Seq<char>, reason: Seq<char>) -> Seq<
    char,
> {
    (if reasons.len() == 0 {
        reasons
    } else {
        reasons + "; "@
    }) + path + ": "@ + reason
}

/// The description once a zero-copy path was declined.
pub open spec fn with_declined(path: Seq<char>, reason: Seq<char>) -> spec_fn(InfoView) -> InfoView {
    |i: InfoView|
        InfoView { capture_reason: another_reason(i.capture_reason, path, reason), ..i }
}

/// Why a zero-copy path was not taken. A capture that declines several keeps each reason.
pub fn capture_declined(reports: &mut Reports, path: &str, reason: &str)
    requires
        old(reports).wf(),
    ensures
        final(reports).wf(),
        landed(*old(reports), *final(reports), with_declined(path@, reason@)),
{
    let ghost before = *reports;
    if let Some(c) = reports.current {
        let report = &mut reports.list[c];
        let mut text = report.info.capture_reason.clone();
        if text.as_str().unicode_len() != 0 {
            text.append("; ");
        }
        text.append(path);
        text.append(": ");
        text.append(reason);
        report.info.capture_reason = text;
        assert(reports.list@[c as int].info@ =~= with_declined(path@, reason@)(
            before.list@[c as int].info@,
        ));
    }
}

/// The description with one reason for not being zero-copy.
pub open spec fn with_capture_reason(reason: Seq<char>) -> spec_fn(InfoView) -> InfoView {
    |i: InfoView| InfoView { capture_reason: reason, ..i }
}

/// Why the capture is not zero-copy, replacing whatever was collected.
pub fn capture_reason(reports: &mut Reports, reason: &str)
    requires
        old(reports).wf(),
    ensures
        final(reports).wf(),
        landed(*old(reports), *final(reports), with_capture_reason(reason@)),
{
    let ghost before = *reports;
    if let Some(c) = reports.current {
        let report = &mut reports.list[c];
        report.info.capture_reason = reason.to_owned();
        assert(reports.list@[c as int].info@ =~= with_capture_reason(reason@)(
            before.list@[c as int].info@,
        ));
    }
}

/// The description of a session that encodes on a device.
pub open spec fn with_hardware(gpu: Seq<char>, driver: Seq<char>, node: i32) -> spec_fn(
    InfoView,
) -> InfoView {
    |i: InfoView|
        InfoView { gpu, driver, encode_node: node, encoder_reason: Seq::empty(), ..i }
}

/// The hardware session the ladder opened, and the device it runs on.
pub fn hardware_encoder(reports: &mut Reports, gpu: &str, driver: &str, node: i32)
    requires
        old(reports).wf(),
    ensures
        final(reports).wf(),
        landed(*old(reports), *final(reports), with_hardware(gpu@, driver@, node)),
{
    let ghost before = *reports;
    if let Some(c) = reports.current {
        let report = &mut reports.list[c];
        report.info.gpu = gpu.to_owned();
        report.info.driver = driver.to_owned();
        report.info.encode_node = node;
        report.info.encoder_reason = String::new();
        assert(reports.list@[c as int].info@ =~= with_hardware(gpu@, driver@, node)(
            before.list@[c as int].info@,
        ));
    }
}

/// The description with one reason for not encoding in hardware.
pub open spec fn with_encoder_reason(reason: Seq<char>) -> spec_fn(InfoView) -> InfoView {
    |i: InfoView| InfoView { encoder_reason: reason, ..i }
}

/// Why the session does not encode in hardware.
pub fn encoder_reason(reports: &mut Reports, reason: &str)
    requires
        old(reports).wf(),
    ensures
        final(reports).wf(),
        landed(*old(reports), *final(reports), with_encoder_reason(reason@)),
{
    let ghost before = *reports;
    if let Some(c) = reports.current {
        let report = &mut reports.list[c];
        report.info.encoder_reason = reason.to_owned();
        assert(reports.list@[c as int].info@ =~= with_encoder_reason(reason@)(
            before.list@[c as int].info@,
        ));
    }
}

/// The encoder of the still images that the striped software path sends.
pub const STILL_ENCODER: &'static str = "turbojpeg";

/// The encoder's name and whether it is hardware: the full-frame session's own, or the software
/// library that serves the striped path.
pub open spec fn encoder_of(
    settings: RustCaptureSettings,
    software: Seq<char>,
    backend: Option<(&str, bool)>,
) -> (Seq<char>, bool) {
    match backend {
        Some((name, hardware)) => (name@, hardware),
        None => if settings.codec.video() {
            (software, false)
        } else {
            (STILL_ENCODER@, false)
        },
    }
}

/// The description of a stream that has settled. Software runs on no device.
pub open spec fn with_stream(
    encoder: (Seq<char>, bool),
    codec: Seq<char>,
    stripes: usize,
    fullcolor: bool,
    full_range: bool,
) -> spec_fn(InfoView) -> InfoView {
    |i: InfoView|
        InfoView {
            encoder: encoder.0,
            hardware: encoder.1,
            gpu: if encoder.1 {
                i.gpu
            } else {
                Seq::empty()
            },
            driver: if encoder.1 {
                i.driver
            } else {
                Seq::empty()
            },
            encode_node: if encoder.1 {
                i.encode_node
            } else {
                -1i32
            },
            codec,
            fullcolor,
            full_range,
            stripes,
            ..i
        }
}

/// What the stream settled on. `backend` is the full-frame session as `(name, hardware)`, `None`
/// the striped software path, whose video is encoded by the library `software`; `codec` names
/// the settings' codec.
pub fn stream(
    reports: &mut Reports,
    settings: &RustCaptureSettings,
    codec: &'static str,
    software: &str,
    stripes: usize,
    backend: Option<(&str, bool)>,
    fullcolor: bool,
    full_range: bool,
)
    requires
        old(reports).wf(),
    ensures
        final(reports).wf(),
        landed(
            *old(reports),
            *final(reports),
            with_stream(
                encoder_of(*settings, software@, backend),
                codec@,
                stripes,
                fullcolor,
                full_range,
            ),
        ),
{
    let ghost before = *reports;
    if let Some(c) = reports.current {
        let (name, hardware): (&str, bool) = match backend {
            Some((name, hardware)) => (name, hardware),
            None => if settings.codec.is_video() {
                (software, false)
            } else {
                (STILL_ENCODER, false)
            },
        };
        let report = &mut reports.list[c];
        report.info.encoder = name.to_owned();
        report.info.hardware = hardware;
        if !hardware {
            report.info.gpu = String::new();
            report.info.driver = String::new();
            report.info.encode_node = -1;
        }
        report.info.codec = codec;
        report.info.fullcolor = fullcolor;
        report.info.full_range = full_range;
        report.info.stripes = stripes;
        assert(reports.list@[c as int].info@ =~= with_stream(
            encoder_of(*settings, software@, backend),
            codec@,
            stripes,
            fullcolor,
            full_range,
        )(before.list@[c as int].info@));
    }
}

/// How the compositor renders from now on.
pub fn set_renderer(reports: &mut Reports, renderer: Renderer)
    ensures
        final(reports).renderer == renderer,
        final(reports).list == old(reports).list,
        final(reports).current == old(reports).current,
        final(reports).wayland == old(reports).wayland,
{
    reports.renderer = renderer;
}

/// How the compositor renders.
pub fn renderer(reports: &Reports) -> (r: Renderer)
    ensures
        r == reports.renderer,
{
    reports.renderer.clone()
}

/// The report of each Wayland display's capture.
pub fn wayland_reports(reports: &mut Reports) -> (map: &mut HashMap<u32, usize>)
    ensures
        *map == old(reports).wayland,
        final(reports).wayland == *final(map),
        final(reports).list == old(reports).list,
        final(reports).current == old(reports).current,
        final(reports).renderer == old(reports).renderer,
{
    &mut reports.wayland
}

} // verus!
