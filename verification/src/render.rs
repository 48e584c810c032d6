//! One output's tick: whether it renders at all, which buffers it may reuse, and how the frame it
//! composited reaches the encoder.
//!
//! The renderer itself is asked between the steps. A display whose encode pool is busy skips its
//! tick and is looked at again shortly; one whose zero-copy frame is still parked encodes nothing
//! new, since an encoded frame joins the reference chain and can never be dropped.

use vstd::prelude::*;
use vstd::string::*;
use crate::clock::Instant;
use crate::encode_loop;
use crate::encode_loop::{GpuEncoder, Recovery, WlEncodeControls};
use crate::encoders::{
    Codec, EncodedStripe, FrameTiming, DATA_TYPE_H264, HW_ERROR_RECOVERY_THRESHOLD,
};
use crate::pipeline;
use crate::pipeline::{decide_hw_fullframe, HwFrameDecision};
use crate::pixels;
use crate::pixels::swap_red_blue;
use crate::pool::{Rect, WlFrame, WlFramePool};
use crate::recording_sink::RecordingSink;
use crate::start;
use crate::start::{bootstrap_readback_pool, readback_tries_gpu};
use crate::wayland::{OutputNode, WlCapture};

verus! {

/// A tick is wanted: by a capture, a screenshot, or a client that copies the output.
pub open spec fn tick_wanted(node: OutputNode, screenshot: bool, copy_wanted: bool) -> bool {
    node.capture is Some || screenshot || copy_wanted
}

/// Less than nine tenths of a frame's time passed since the last tick; the frame rate counts as
/// one a second at least.
pub open spec fn too_soon(last: Option<Instant>, fps_milli: u32, now: Instant) -> bool {
    match last {
        Some(l) => {
            let passed = if now.nanos > l.nanos {
                now.nanos - l.nanos
            } else {
                0
            };
            let fps = if fps_milli < 1000 {
                1000
            } else {
                fps_milli as int
            };
            passed * fps < 900_000_000_000
        },
        None => false,
    }
}

/// Whether a tick comes too soon under the shared timer, which fires at the fastest capture's
/// rate.
pub fn is_too_soon(last: Option<Instant>, fps_milli: u32, now: Instant) -> (b: bool)
    ensures
        b == too_soon(last, fps_milli, now),
{
    match last {
        Some(l) => {
            let passed: u64 = if now.nanos > l.nanos {
                now.nanos - l.nanos
            } else {
                0
            };
            let fps: u64 = if fps_milli < 1000 {
                1000
            } else {
                fps_milli as u64
            };
            let (a, b): (u128, u128) = (passed as u128, fps as u128);
            assert(a * b <= 0xffff_ffff_ffff_ffff * 0xffff_ffff) by (nonlinear_arith)
                requires
                    a <= 0xffff_ffff_ffff_ffff,
                    b <= 0xffff_ffff,
            ;
            a * b < 900_000_000_000
        },
        None => false,
    }
}

/// The size an output renders at: its capture's, else its mode's.
pub open spec fn render_size(node: OutputNode) -> (i32, i32) {
    match node.capture {
        Some(c) => (c.settings.width, c.settings.height),
        None => match node.mode {
            Some(m) => (m.w, m.h),
            None => (0, 0),
        },
    }
}

/// Frames are held: no client covers the output yet, and the wait for one is not over. Host
/// capture has no such gap.
pub open spec fn held(until: Option<Instant>, host: bool, covers: bool, now: Instant) -> bool {
    until is Some && !host && now.nanos < until->0.nanos && !covers
}

/// A recorder that connected counts as a keyframe request, kept armed across skipped ticks.
pub open spec fn with_recorder(cap: WlCapture) -> WlCapture {
    if cap.recording_sink is Some && cap.recording_sink->0.client_connected {
        WlCapture {
            recording_sink: Some(
                RecordingSink { client_connected: false, ..cap.recording_sink->0 },
            ),
            ..cap
        }.asked_idr()
    } else {
        cap
    }
}

fn take_recorder(cap: &mut WlCapture)
    ensures
        *final(cap) == with_recorder(*old(cap)),
{
    let mut asked = false;
    if let Some(sink) = &mut cap.recording_sink {
        asked = sink.should_force_idr();
    }
    if asked {
        cap.request_idr();
    }
}

/// What a tick that renders works with.
#[derive(Debug)]
pub struct Tick {
    pub width: i32,
    pub height: i32,
    /// The frame is composited but not sent.
    pub hold: bool,
    /// A keyframe was asked of the zero-copy session.
    pub requested_idr: bool,
    /// A keyframe was asked on either path.
    pub want_idr: bool,
    /// The pooled buffer that the frame goes into.
    pub slot: Option<(usize, Vec<u8>)>,
    /// The whole output is drawn, whatever was damaged.
    pub needs_full: bool,
}

/// Whether a tick renders.
#[derive(Debug)]
pub enum Gate {
    /// Nothing to do.
    Idle,
    /// The encoder is behind: look again shortly.
    Busy,
    Run(Tick),
}

/// A tick has nothing to do: nobody wants it, it comes too soon (a screenshot does not wait), or
/// the output has no size.
pub open spec fn idle(node: OutputNode, screenshot: bool, copy_wanted: bool, now: Instant) -> bool {
    ||| !tick_wanted(node, screenshot, copy_wanted)
    ||| node.capture is Some && !screenshot && too_soon(
        node.capture->0.last_tick,
        node.capture->0.settings.target_fps_milli,
        now,
    )
    ||| render_size(node).0 <= 0
    ||| render_size(node).1 <= 0
}

/// A pool hands out no buffer.
pub open spec fn saturated(pool: WlFramePool) -> bool {
    pool.slot is Some || pool.free@.len() == 0
}

/// The drawing buffer, grown where it is too small.
pub open spec fn grown(buf: Seq<u8>, len: int) -> Seq<u8> {
    if buf.len() < len {
        Seq::new(len as nat, |_i: int| 0u8)
    } else {
        buf
    }
}

/// How a tick begins: what it comes to, and what it does to the output and its pool.
pub open spec fn began(
    was: OutputNode,
    now_node: OutputNode,
    pool: Option<WlFramePool>,
    left: Option<WlFramePool>,
    screenshot: bool,
    copy_wanted: bool,
    host: bool,
    covers: bool,
    now: Instant,
    gate: Gate,
) -> bool {
    if idle(was, screenshot, copy_wanted, now) {
        gate is Idle && now_node == was && left == pool
    } else {
        let (w, h) = render_size(was);
        let hold = held(was.content_hold_until, host, covers, now);
        let cap = match was.capture {
            Some(c) => Some(with_recorder(c)),
            None => None,
        };
        &&& now_node.frame_buffer@ == grown(was.frame_buffer@, w * h * 4)
        &&& now_node.content_hold_until == if hold {
            was.content_hold_until
        } else {
            None
        }
        &&& if !hold && cap is Some && pool is Some && saturated(pool->0) {
            &&& gate is Busy
            &&& now_node.capture == cap
            &&& left is Some
            &&& left->0.free@ == pool->0.free@
            &&& left->0.slot == pool->0.slot
            &&& left->0.stop == pool->0.stop
        } else {
            &&& gate is Run
            &&& now_node.capture == match cap {
                Some(c) => Some(WlCapture { last_tick: Some(now), ..c }),
                None => None,
            }
            &&& gate->Run_0.width == w
            &&& gate->Run_0.height == h
            &&& gate->Run_0.hold == hold
            &&& gate->Run_0.requested_idr == (cap is Some && cap->0.pending_force_idr)
            &&& gate->Run_0.want_idr == (cap is Some && (cap->0.pending_force_idr
                || cap->0.controls.force_idr))
            &&& gate->Run_0.needs_full == match cap {
                Some(c) => c.needs_full_render,
                None => !was.target_seeded,
            }
            &&& if !hold && cap is Some && pool is Some {
                &&& gate->Run_0.slot == Some(pool->0.free@.last())
                &&& left is Some
                &&& left->0.free@ == pool->0.free@.drop_last()
                &&& left->0.slot is None
                &&& left->0.stop == pool->0.stop
            } else {
                gate->Run_0.slot is None && left == pool
            }
        }
    }
}

/// Begin an output's tick. `host` says whether a host compositor is captured, `covers` whether a
/// client covers the output at its new size.
pub fn begin_tick(
    node: &mut OutputNode,
    pool: &mut Option<WlFramePool>,
    screenshot: bool,
    copy_wanted: bool,
    host: bool,
    covers: bool,
    now: Instant,
) -> (gate: Gate)
    requires
        render_size(*old(node)).0 > 0 && render_size(*old(node)).1 > 0 ==> render_size(
            *old(node),
        ).0 * render_size(*old(node)).1 * 4 <= usize::MAX,
    ensures
        final(node).id == old(node).id,
        final(node).name == old(node).name,
        final(node).pos == old(node).pos,
        final(node).mode == old(node).mode,
        final(node).scale_micro == old(node).scale_micro,
        final(node).frame_seq == old(node).frame_seq,
        final(node).target_seeded == old(node).target_seeded,
        began(
            *old(node),
            *final(node),
            *old(pool),
            *final(pool),
            screenshot,
            copy_wanted,
            host,
            covers,
            now,
            gate,
        ),
{
    if node.capture.is_none() && !screenshot && !copy_wanted {
        return Gate::Idle;
    }
    if let Some(cap) = &node.capture {
        if !screenshot && is_too_soon(cap.last_tick, cap.settings.target_fps_milli, now) {
            return Gate::Idle;
        }
    }
    let (width, height): (i32, i32) = match &node.capture {
        Some(c) => (c.settings.width, c.settings.height),
        None => match node.mode {
            Some(m) => (m.w, m.h),
            None => (0, 0),
        },
    };
    if width <= 0 || height <= 0 {
        return Gate::Idle;
    }
    grow_buffer(&mut node.frame_buffer, width, height);
    let hold = settle_hold(&mut node.content_hold_until, host, covers, now);
    let captured = node.capture.is_some();
    let asked = asked_of(&mut node.capture, !node.target_seeded);
    let mut slot: Option<(usize, Vec<u8>)> = None;
    if !hold && captured {
        match reserve(pool) {
            Reserved::Saturated => {
                return Gate::Busy;
            },
            Reserved::Slot(s) => {
                slot = Some(s);
            },
            Reserved::Unpooled => {},
        }
    }
    stamp(&mut node.capture, now);
    Gate::Run(
        Tick {
            width,
            height,
            hold,
            requested_idr: asked.zero_copy,
            want_idr: asked.zero_copy || asked.readback,
            slot,
            needs_full: asked.full,
        },
    )
}

fn grow_buffer(buf: &mut Vec<u8>, width: i32, height: i32)
    requires
        width > 0,
        height > 0,
        width * height * 4 <= usize::MAX,
    ensures
        final(buf)@ == grown(old(buf)@, width * height * 4),
{
    assert(width * height <= 0x7fff_ffff * 0x7fff_ffff) by (nonlinear_arith)
        requires
            0 < width <= 0x7fff_ffff,
            0 < height <= 0x7fff_ffff,
    ;
    let len: usize = (width as u64 * height as u64 * 4) as usize;
    if buf.len() < len {
        *buf = vec![0u8; len];
    }
    assert(buf@ =~= grown(old(buf)@, width * height * 4));
}

fn settle_hold(until: &mut Option<Instant>, host: bool, covers: bool, now: Instant) -> (hold: bool)
    ensures
        hold == held(*old(until), host, covers, now),
        *final(until) == if hold {
            *old(until)
        } else {
            None
        },
{
    let hold = match *until {
        Some(u) => !host && now.nanos < u.nanos && !covers,
        None => false,
    };
    if !hold {
        *until = None;
    }
    hold
}

/// What was asked of a capture before a tick.
struct Asked {
    zero_copy: bool,
    readback: bool,
    full: bool,
}

fn asked_of(cap: &mut Option<WlCapture>, unseeded: bool) -> (a: Asked)
    ensures
        match (*old(cap), *final(cap)) {
            (Some(c), Some(after)) => {
                &&& after == with_recorder(c)
                &&& a.zero_copy == after.pending_force_idr
                &&& a.readback == after.controls.force_idr
                &&& a.full == after.needs_full_render
            },
            (None, None) => !a.zero_copy && !a.readback && a.full == unseeded,
            _ => false,
        },
{
    if let Some(c) = cap {
        take_recorder(c);
        Asked {
            zero_copy: c.pending_force_idr,
            readback: c.controls.force_idr,
            full: c.needs_full_render,
        }
    } else {
        Asked { zero_copy: false, readback: false, full: unseeded }
    }
}

/// What a pool hands out.
enum Reserved {
    Unpooled,
    Saturated,
    Slot((usize, Vec<u8>)),
}

fn reserve(pool: &mut Option<WlFramePool>) -> (r: Reserved)
    ensures
        match (*old(pool), *final(pool)) {
            (Some(p), Some(left)) => {
                &&& left.stop == p.stop
                &&& if saturated(p) {
                    r is Saturated && left.free@ == p.free@ && left.slot == p.slot
                } else {
                    r == Reserved::Slot(p.free@.last()) && left.free@ == p.free@.drop_last()
                        && left.slot is None
                }
            },
            (None, None) => r is Unpooled,
            _ => false,
        },
{
    if let Some(p) = pool {
        match p.try_begin() {
            Some(s) => Reserved::Slot(s),
            None => Reserved::Saturated,
        }
    } else {
        Reserved::Unpooled
    }
}

fn stamp(cap: &mut Option<WlCapture>, now: Instant)
    ensures
        *final(cap) == match *old(cap) {
            Some(c) => Some(WlCapture { last_tick: Some(now), ..c }),
            None => None,
        },
{
    if let Some(c) = cap {
        c.last_tick = Some(now);
    }
}

/// Return an unused reservation, where the pool is still there.
pub fn cancel_slot(pool: &mut Option<WlFramePool>, slot: Option<(usize, Vec<u8>)>)
    ensures
        match (*old(pool), slot, *final(pool)) {
            (Some(p), Some(s), Some(left)) => {
                &&& left.free@ == p.free@.push(s)
                &&& left.slot == p.slot
                &&& left.stop == p.stop
            },
            (Some(_), Some(_), None) => false,
            _ => *final(pool) == *old(pool),
        },
{
    if let Some((id, buf)) = slot {
        if let Some(p) = pool {
            p.cancel(id, buf);
        }
    }
}

/// What the host handed over.
#[derive(Clone, Copy, Debug, PartialEq, Eq, Structural)]
pub enum HostFrame {
    /// A software frame.
    Cpu,
    /// A frame in GPU memory.
    Gpu,
    /// A frame with neither.
    Bare,
}

/// What becomes of a retained host frame.
#[derive(Clone, Copy, Debug, PartialEq, Eq, Structural)]
pub enum Retained {
    /// It is used.
    Used,
    /// There is none.
    Missing,
    /// It is a software frame that a zero-copy session cannot take.
    CpuFrame,
    /// It is a GPU frame that a software consumer cannot read.
    GpuFrame,
}

/// Whether a host frame is from before a mode change: it is useless at the new size.
pub fn is_stale(expect: Option<(i32, i32)>, width: i32, height: i32) -> (b: bool)
    ensures
        b == match expect {
            Some((w, h)) => w != width || h != height,
            None => false,
        },
{
    match expect {
        Some((w, h)) => w != width || h != height,
        None => false,
    }
}

/// Whether a host frame is encoded this tick: a new one, or the retained one where a keyframe, a
/// constant-rate stream, a screenshot or a moving watermark asks for it.
pub fn host_wakes(
    have_new: bool,
    want_idr: bool,
    streaming: bool,
    screenshot: bool,
    moving_watermark: bool,
) -> (b: bool)
    ensures
        b == (have_new || want_idr || streaming || screenshot || moving_watermark),
{
    have_new || want_idr || streaming || screenshot || moving_watermark
}

/// What becomes of a retained host frame.
pub open spec fn retained(frame: Option<HostFrame>, zero_copy: bool) -> Retained {
    match frame {
        None => Retained::Missing,
        Some(HostFrame::Cpu) => if zero_copy {
            Retained::CpuFrame
        } else {
            Retained::Used
        },
        Some(HostFrame::Gpu) => if zero_copy {
            Retained::Used
        } else {
            Retained::GpuFrame
        },
        Some(HostFrame::Bare) => Retained::Used,
    }
}

/// What becomes of a retained host frame.
pub fn retained_outcome(frame: Option<HostFrame>, zero_copy: bool) -> (r: Retained)
    ensures
        r == retained(frame, zero_copy),
{
    match frame {
        None => Retained::Missing,
        Some(HostFrame::Cpu) => if zero_copy {
            Retained::CpuFrame
        } else {
            Retained::Used
        },
        Some(HostFrame::Gpu) => if zero_copy {
            Retained::Used
        } else {
            Retained::GpuFrame
        },
        Some(HostFrame::Bare) => Retained::Used,
    }
}

/// How a host frame that a display cannot take is recovered from.
#[derive(Clone, Copy, Debug, PartialEq, Eq, Structural)]
pub enum HostRecovery {
    Nothing,
    /// The host is asked for frames in shared memory.
    AskShm,
    /// The session is given up for the readback path, with hardware tried or not; the host is
    /// asked for frames in shared memory. Where nobody takes frames no path comes up.
    Demote { try_gpu: bool, buf_len: Option<usize> },
}

/// Recover from a host frame that a display cannot take: either side of the mismatch would
/// otherwise stream nothing for the life of the capture.
pub fn recover_host_frame(cap: &mut Option<WlCapture>, outcome: Retained) -> (r: HostRecovery)
    requires
        *old(cap) matches Some(c) ==> start::frame_len(c.settings.width, c.settings.height)
            <= usize::MAX,
    ensures
        match outcome {
            Retained::GpuFrame => r == HostRecovery::AskShm && *final(cap) == *old(cap),
            Retained::CpuFrame => match *old(cap) {
                Some(c) => {
                    &&& *final(cap) matches Some(after) && demoted(c, after)
                    &&& r == (HostRecovery::Demote {
                        try_gpu: c.settings.output_mode == 1 && !(c.settings.use_cpu
                            || c.settings.encode_node_index == -1),
                        buf_len: if c.delivers {
                            Some(
                                start::frame_len(c.settings.width, c.settings.height) as usize,
                            )
                        } else {
                            None
                        },
                    })
                },
                None => r == HostRecovery::Nothing && *final(cap) == *old(cap),
            },
            _ => r == HostRecovery::Nothing && *final(cap) == *old(cap),
        },
{
    match outcome {
        Retained::GpuFrame => HostRecovery::AskShm,
        Retained::CpuFrame => {
            if let Some(c) = cap {
                let (try_gpu, buf_len) = demote(c);
                c.request_idr();
                HostRecovery::Demote { try_gpu, buf_len }
            } else {
                HostRecovery::Nothing
            }
        },
        _ => HostRecovery::Nothing,
    }
}

/// A capture whose zero-copy session was given up for the readback path, a keyframe armed.
pub open spec fn demoted(before: WlCapture, after: WlCapture) -> bool {
    let without = WlCapture { session: None, ..before };
    if before.delivers {
        &&& after.controls.force_idr
        &&& start::bootstrapped(
            without,
            WlCapture {
                controls: WlEncodeControls {
                    force_idr: before.controls.force_idr,
                    ..after.controls
                },
                ..after
            },
        )
    } else {
        after == without.asked_idr()
    }
}

/// Give the zero-copy session up for the readback path.
fn demote(cap: &mut WlCapture) -> (r: (bool, Option<usize>))
    requires
        start::frame_len(old(cap).settings.width, old(cap).settings.height) <= usize::MAX,
    ensures
        r.0 == (old(cap).settings.output_mode == 1 && !(old(cap).settings.use_cpu
            || old(cap).settings.encode_node_index == -1)),
        r.1 is Some <==> old(cap).delivers,
        r.1 matches Some(n) ==> n == start::frame_len(
            old(cap).settings.width,
            old(cap).settings.height,
        ),
        old(cap).delivers ==> start::bootstrapped(
            WlCapture { session: None, ..*old(cap) },
            *final(cap),
        ),
        !old(cap).delivers ==> *final(cap) == (WlCapture { session: None, ..*old(cap) }),
{
    cap.session = None;
    let try_gpu = readback_tries_gpu(&cap.settings);
    let buf_len = bootstrap_readback_pool(cap);
    (try_gpu, buf_len)
}

/// Whether a display yields frames at all: with a host connected, only one that a host's output
/// backs does. The compositor's own empty content is not sent in its place, and a buffer that was
/// reserved is given back.
pub fn host_yields(host: bool, backed: bool) -> (b: bool)
    ensures
        b == (!host || backed),
{
    !host || backed
}

/// How a watermark is drawn onto a host's GPU frame.
#[derive(Clone, Copy, Debug, PartialEq, Eq, Structural)]
pub enum Watermark {
    Nothing,
    /// The frame is composed anew with it: drawing over a retained frame would leave trails.
    Compose,
    /// It is stamped onto the fresh frame once.
    Stamp,
}

/// How a watermark is drawn onto a host's GPU frame.
pub fn host_watermark(active: bool, moving: bool, have_new: bool, has_target: bool) -> (w: Watermark)
    ensures
        w == if active && moving && has_target {
            Watermark::Compose
        } else if active && !moving && have_new {
            Watermark::Stamp
        } else {
            Watermark::Nothing
        },
{
    if active && moving && has_target {
        Watermark::Compose
    } else if active && !moving && have_new {
        Watermark::Stamp
    } else {
        Watermark::Nothing
    }
}

/// How many renders old the composited buffer is on the GPU: nothing of it is reused where
/// something moves or the whole is drawn.
pub fn gpu_render_age(moving: bool, needs_full: bool) -> (age: usize)
    ensures
        age == if moving || needs_full {
            0int
        } else {
            1
        },
{
    if moving || needs_full {
        0
    } else {
        1
    }
}

/// The pooled buffers of a capture are numbered, and none was drawn later than now.
pub open spec fn pooled(cap: WlCapture, id: int) -> bool {
    &&& 0 <= id < cap.pool_last_render@.len()
    &&& cap.pool_last_render@.len() == cap.pool_content_gen@.len()
    &&& cap.pool_last_render@[id] <= cap.render_seq
}

/// How many renders old a pooled buffer is; zero where it was never drawn.
pub open spec fn buffer_age(cap: WlCapture, id: int) -> int {
    if cap.pool_last_render@[id] == 0 {
        0
    } else {
        cap.render_seq + 1 - cap.pool_last_render@[id]
    }
}

/// How many renders old the buffer that software draws into is. A buffer outside the pool is never
/// reused.
pub fn software_render_age(
    cap: &Option<WlCapture>,
    slot: Option<usize>,
    moving: bool,
    needs_full: bool,
) -> (age: u64)
    requires
        cap is Some && slot is Some ==> pooled(cap->0, slot->0 as int) && cap->0.render_seq
            < u64::MAX,
    ensures
        age == if moving || needs_full || cap is None || slot is None {
            0
        } else {
            buffer_age(cap->0, slot->0 as int)
        },
{
    if moving || needs_full {
        return 0;
    }
    match (cap, slot) {
        (Some(c), Some(id)) => if c.pool_last_render[id] == 0 {
            0
        } else {
            c.render_seq + 1 - c.pool_last_render[id]
        },
        _ => 0,
    }
}

/// A render on the GPU was accounted for. The content on screen has a new number where something
/// was damaged; the pooled buffer of a good render takes that number, read back where it held
/// another.
pub open spec fn gpu_drawn(
    before: WlCapture,
    after: WlCapture,
    ok: bool,
    damaged: bool,
    slot: Option<usize>,
    readback: bool,
) -> bool {
    &&& after.needs_full_render == (before.needs_full_render && !ok)
    &&& after.content_gen == before.content_gen + if damaged {
        1int
    } else {
        0
    }
    &&& readback == (slot is Some && ok && after.content_gen
        != before.pool_content_gen@[slot->0 as int])
    &&& after.pool_content_gen@ == if slot is Some && ok {
        before.pool_content_gen@.update(slot->0 as int, after.content_gen)
    } else {
        before.pool_content_gen@
    }
    &&& after == WlCapture {
        needs_full_render: after.needs_full_render,
        content_gen: after.content_gen,
        pool_content_gen: after.pool_content_gen,
        ..before
    }
}

/// Account for a render on the GPU, and say whether the pooled buffer has to be read back: it has
/// to where it does not hold the content on screen. Ticks without damage skip the readback, so a
/// buffer can lag behind by more than one change.
pub fn rendered_gpu(
    cap: &mut WlCapture,
    ok: bool,
    damaged: bool,
    slot: Option<usize>,
) -> (readback: bool)
    requires
        old(cap).content_gen < u64::MAX,
        slot matches Some(id) ==> id < old(cap).pool_content_gen@.len(),
    ensures
        gpu_drawn(*old(cap), *final(cap), ok, damaged, slot, readback),
{
    if ok {
        cap.needs_full_render = false;
    }
    if damaged {
        cap.content_gen = cap.content_gen + 1;
    }
    let mut readback = false;
    if let Some(id) = slot {
        if ok {
            readback = cap.pool_content_gen[id] != cap.content_gen;
            if readback {
                let now: u64 = cap.content_gen;
                cap.pool_content_gen.set(id, now);
            }
            assert(cap.pool_content_gen@ =~= old(cap).pool_content_gen@.update(
                id as int,
                cap.content_gen,
            ));
        }
    }
    readback
}

/// No pooled buffer holds content that is not on screen yet; one that was never filled has the
/// number that no content has.
pub open spec fn none_ahead(cap: WlCapture) -> bool {
    forall|i: int|
        0 <= i < cap.pool_content_gen@.len() ==> (#[trigger] cap.pool_content_gen@[i])
            <= cap.content_gen || cap.pool_content_gen@[i] == u64::MAX
}

/// Every pooled buffer that is published holds the content on screen, however long the encoder kept
/// it: behind a good render into it, it was read back or held that content already. Damage always
/// has it read back, and so has its first use; no other buffer is taken for current.
pub proof fn published_buffers_are_current(
    before: WlCapture,
    after: WlCapture,
    damaged: bool,
    id: usize,
    readback: bool,
)
    requires
        id < before.pool_content_gen@.len(),
        before.content_gen < u64::MAX - 1,
        none_ahead(before),
        gpu_drawn(before, after, true, damaged, Some(id), readback),
    ensures
        readback || before.pool_content_gen@[id as int] == after.content_gen,
        after.pool_content_gen@[id as int] == after.content_gen,
        damaged || before.pool_content_gen@[id as int] == u64::MAX ==> readback,
        forall|j: int|
            0 <= j < before.pool_content_gen@.len() && j != id ==> after.pool_content_gen@[j]
                == before.pool_content_gen@[j],
        none_ahead(after),
{
    assert(before.pool_content_gen@[id as int] <= before.content_gen
        || before.pool_content_gen@[id as int] == u64::MAX);
}

/// Account for a render in software.
pub fn rendered_software(cap: &mut WlCapture, ok: bool, slot: Option<usize>)
    requires
        old(cap).render_seq < u64::MAX,
        slot matches Some(id) ==> id < old(cap).pool_last_render@.len(),
    ensures
        final(cap).needs_full_render == (old(cap).needs_full_render && !ok),
        final(cap).render_seq == old(cap).render_seq + 1,
        final(cap).pool_last_render@ == if slot is Some && ok {
            old(cap).pool_last_render@.update(slot->0 as int, final(cap).render_seq)
        } else {
            old(cap).pool_last_render@
        },
        *final(cap) == (WlCapture {
            needs_full_render: final(cap).needs_full_render,
            render_seq: final(cap).render_seq,
            pool_last_render: final(cap).pool_last_render,
            ..*old(cap)
        }),
{
    if ok {
        cap.needs_full_render = false;
    }
    cap.render_seq = cap.render_seq + 1;
    if let Some(id) = slot {
        if ok {
            let now: u64 = cap.render_seq;
            cap.pool_last_render.set(id, now);
        }
    }
}

/// A buffer drawn at the last render is one render old at the next.
pub proof fn redrawn_buffers_are_one_old(before: WlCapture, after: WlCapture, id: int)
    requires
        0 <= id < before.pool_last_render@.len(),
        after.render_seq == before.render_seq + 1,
        after.pool_last_render@ == before.pool_last_render@.update(id, after.render_seq),
    ensures
        buffer_age(after, id) == 1,
        forall|j: int|
            0 <= j < before.pool_last_render@.len() && j != id && before.pool_last_render@[j] != 0
                ==> #[trigger] buffer_age(after, j) == buffer_age(before, j) + 1,
{
}

/// The number of the frame after one: it starts over past the last.
pub open spec fn next_frame(n: u16) -> u16 {
    if n == u16::MAX {
        0
    } else {
        (n + 1) as u16
    }
}

fn advance(n: u16) -> (r: u16)
    ensures
        r == next_frame(n),
{
    if n == 0xffff {
        0
    } else {
        n + 1
    }
}

/// Publish a pooled frame to the encode thread. Frames are numbered in the order in which they are
/// published.
pub fn publish_frame(
    cap: &mut WlCapture,
    pool: &mut WlFramePool,
    slot: (usize, Vec<u8>),
    damage: Vec<Rect>,
    is_animated: bool,
)
    requires
        old(pool).slot is None,
    ensures
        final(pool).slot == Some(
            WlFrame {
                id: slot.0,
                buf: slot.1,
                frame_id: old(cap).frame_counter,
                damage,
                is_animated,
            },
        ),
        final(pool).free == old(pool).free,
        final(pool).stop == old(pool).stop,
        *final(cap) == (WlCapture {
            frame_counter: next_frame(old(cap).frame_counter),
            ..*old(cap)
        }),
{
    let (id, buf) = slot;
    pool.publish(WlFrame { id, buf, frame_id: cap.frame_counter, damage, is_animated });
    cap.frame_counter = advance(cap.frame_counter);
}

/// How an attempt to deliver a parked frame ended.
#[derive(Debug)]
pub enum Handed {
    /// It went out, or nobody takes it.
    Gone,
    /// There is still no room.
    Full(Vec<EncodedStripe>),
}

impl WlCapture {
    /// Take the parked frame for another attempt to deliver it, where someone takes frames.
    pub fn take_parked(&mut self) -> (r: Option<Vec<EncodedStripe>>)
        ensures
            r == if old(self).delivers {
                old(self).pending_hw_delivery
            } else {
                None
            },
            *final(self) == (WlCapture { pending_hw_delivery: None, ..*old(self) }),
    {
        let parked = self.pending_hw_delivery.take();
        if self.delivers {
            parked
        } else {
            None
        }
    }

    /// The capture while a frame stays parked: what changes meanwhile is kept in mind.
    pub open spec fn kept_parked(self, frame: Vec<EncodedStripe>, damaged: bool) -> WlCapture {
        WlCapture {
            pending_hw_delivery: Some(frame),
            pending_hw_damage: self.pending_hw_damage || damaged,
            ..self
        }
    }

    /// Content changed, now or while a frame was parked.
    pub open spec fn dirty(self, damaged: bool) -> bool {
        damaged || self.pending_hw_damage
    }

    /// Decide on a zero-copy frame, once the parked one had its chance. While that one stays
    /// parked nothing is encoded, and the damage is kept for later.
    pub fn zero_copy_tick(
        &mut self,
        parked: Handed,
        damaged: bool,
        moving: bool,
        requested_idr: bool,
    ) -> (d: Option<HwFrameDecision>)
        requires
            parked is Gone ==> pipeline::countable(
                old(self).hw_state,
                old(self).settings,
                old(self).dirty(damaged),
                moving,
                requested_idr || pipeline::idr_scheduled(
                    old(self).settings,
                    old(self).frame_counter,
                ),
            ),
        ensures
            match parked {
                Handed::Full(frame) => {
                    d is None && *final(self) == old(self).kept_parked(frame, damaged)
                },
                Handed::Gone => {
                    let dirty = old(self).dirty(damaged);
                    let asked = requested_idr || pipeline::idr_scheduled(
                        old(self).settings,
                        old(self).frame_counter,
                    );
                    &&& d == Some(
                        pipeline::decision(
                            old(self).hw_state,
                            old(self).settings,
                            dirty,
                            moving,
                            asked,
                        ),
                    )
                    &&& *final(self) == (WlCapture {
                        pending_hw_damage: old(self).pending_hw_damage && damaged,
                        hw_state: pipeline::decided(
                            old(self).hw_state,
                            old(self).settings,
                            dirty,
                            moving,
                            asked,
                        ),
                        ..*old(self)
                    })
                },
            },
    {
        match parked {
            Handed::Full(frame) => {
                self.pending_hw_delivery = Some(frame);
                if damaged {
                    self.pending_hw_damage = true;
                }
                None
            },
            Handed::Gone => {
                let mut dirty = damaged;
                if !dirty {
                    dirty = self.pending_hw_damage;
                    self.pending_hw_damage = false;
                }
                Some(
                    decide_hw_fullframe(
                        &mut self.hw_state,
                        &self.settings,
                        self.frame_counter,
                        dirty,
                        moving,
                        requested_idr,
                    ),
                )
            },
        }
    }

    /// The stripes of a zero-copy frame, and the capture after it: a request that it did not
    /// answer stays armed.
    pub open spec fn zero_copied(
        self,
        data: Option<Result<Vec<u8>, ()>>,
        requested_idr: bool,
        frame_out: bool,
    ) -> (WlCapture, Recovery) {
        let (streak, due) = match data {
            Some(Err(_)) => encode_loop::failed_again(self.hw_error_streak, self.hw_rebuilt),
            Some(Ok(_)) => (0u32, Recovery::Keep),
            None => (self.hw_error_streak, Recovery::Keep),
        };
        (
            WlCapture {
                hw_error_streak: streak,
                hw_rebuilt: self.hw_rebuilt && !(data is Some && data->0 is Ok),
                session: if due == Recovery::Keep {
                    self.session
                } else {
                    None
                },
                pending_force_idr: requested_idr && !frame_out,
                frame_counter: next_frame(self.frame_counter),
                ..self
            },
            due,
        )
    }

    /// Account for a zero-copy encode: `data` is `None` where the frame was not sent, else the
    /// session's bytes or its failure. A session that keeps failing is released, to be rebuilt
    /// once and then given up for the readback path. Every tick that decides takes a number.
    pub fn zero_copy_done(
        &mut self,
        data: Option<Result<Vec<u8>, ()>>,
        requested_idr: bool,
        timing: FrameTiming,
    ) -> (r: (Vec<EncodedStripe>, Recovery))
        requires
            old(self).hw_error_streak < HW_ERROR_RECOVERY_THRESHOLD,
        ensures
            r.0@.len() == if data is Some && data->0 is Ok && data->0->Ok_0@.len() != 0 {
                1int
            } else {
                0
            },
            r.0@.len() == 1 ==> {
                &&& r.0@[0].data@ == data->0->Ok_0@
                &&& r.0@[0].data_type == DATA_TYPE_H264
                &&& r.0@[0].codec == Codec::H264
                &&& r.0@[0].stripe_y_start == 0
                &&& r.0@[0].stripe_height == old(self).settings.height
                &&& r.0@[0].frame_id == old(self).frame_counter
                &&& r.0@[0].timing == timing
            },
            (*final(self), r.1) == old(self).zero_copied(data, requested_idr, r.0@.len() != 0),
            final(self).hw_error_streak < HW_ERROR_RECOVERY_THRESHOLD,
    {
        let mut out: Vec<EncodedStripe> = Vec::new();
        let mut due = Recovery::Keep;
        match data {
            None => {},
            Some(Ok(bytes)) => {
                self.hw_error_streak = 0;
                self.hw_rebuilt = false;
                if bytes.len() != 0 {
                    out.push(
                        EncodedStripe {
                            data: bytes,
                            data_type: DATA_TYPE_H264,
                            codec: Codec::H264,
                            stripe_y_start: 0,
                            stripe_height: self.settings.height,
                            frame_id: self.frame_counter as i32,
                            timing,
                        },
                    );
                }
            },
            Some(Err(_)) => {
                self.hw_error_streak = self.hw_error_streak + 1;
                if self.hw_error_streak >= HW_ERROR_RECOVERY_THRESHOLD {
                    due = if self.hw_rebuilt {
                        Recovery::Demote
                    } else {
                        Recovery::Rebuild
                    };
                    self.session = None;
                    self.hw_error_streak = 0;
                }
            },
        }
        self.pending_force_idr = requested_idr && out.len() == 0;
        self.frame_counter = advance(self.frame_counter);
        (out, due)
    }

    /// Go on with the session that was rebuilt, or give zero-copy up for the readback path where
    /// none came up or the one before was a rebuild already. Returns how the readback path comes
    /// up, where it does.
    pub fn zero_copy_recover(&mut self, built: Option<GpuEncoder>) -> (r: Option<
        (bool, Option<usize>),
    >)
        requires
            start::frame_len(old(self).settings.width, old(self).settings.height) <= usize::MAX,
        ensures
            match built {
                Some(session) => r is None && *final(self) == (WlCapture {
                    session: Some(session),
                    hw_rebuilt: true,
                    ..*old(self)
                }),
                None => {
                    let without = WlCapture { session: None, hw_rebuilt: false, ..*old(self) };
                    &&& match r {
                        Some((try_gpu, buf_len)) => {
                            &&& try_gpu == (old(self).settings.output_mode == 1 && !(old(
                                self,
                            ).settings.use_cpu || old(self).settings.encode_node_index == -1))
                            &&& buf_len is Some <==> old(self).delivers
                            &&& buf_len matches Some(n) ==> n == start::frame_len(
                                old(self).settings.width,
                                old(self).settings.height,
                            )
                        },
                        None => false,
                    }
                    &&& old(self).delivers ==> start::bootstrapped(without, *final(self))
                    &&& !old(self).delivers ==> *final(self) == without
                },
            },
    {
        match built {
            Some(session) => {
                self.session = Some(session);
                self.hw_rebuilt = true;
                None
            },
            None => {
                self.hw_rebuilt = false;
                Some(demote(self))
            },
        }
    }

    /// The capture whose encode thread died, with its readback path brought up anew and a keyframe
    /// armed.
    pub open spec fn revived(self, after: WlCapture) -> bool {
        if self.delivers {
            &&& after.controls.force_idr
            &&& start::bootstrapped(
                self,
                WlCapture {
                    controls: WlEncodeControls {
                        force_idr: self.controls.force_idr,
                        ..after.controls
                    },
                    ..after
                },
            )
        } else {
            after == WlCapture { readback: false, pending_force_idr: true, ..self }
        }
    }

    /// The encode thread ended on its own: nothing drains its pool any more, and every frame
    /// published would park the slot for good. The readback path is brought up in its place.
    /// Returns whether hardware is tried, and the length of a pooled buffer where the path came up.
    pub fn encode_thread_died(&mut self) -> (r: (bool, Option<usize>))
        requires
            start::frame_len(old(self).settings.width, old(self).settings.height) <= usize::MAX,
        ensures
            old(self).revived(*final(self)),
            r.0 == (old(self).settings.output_mode == 1 && !(old(self).settings.use_cpu || old(
                self,
            ).settings.encode_node_index == -1)),
            r.1 is Some <==> old(self).delivers,
            r.1 matches Some(n) ==> n == start::frame_len(
                old(self).settings.width,
                old(self).settings.height,
            ),
    {
        self.readback = false;
        let try_gpu = readback_tries_gpu(&self.settings);
        let buf_len = bootstrap_readback_pool(self);
        self.request_idr();
        (try_gpu, buf_len)
    }

    /// Park a frame that the delivery slot had no room for.
    pub fn park(&mut self, frame: Vec<EncodedStripe>)
        ensures
            *final(self) == (WlCapture { pending_hw_delivery: Some(frame), ..*old(self) }),
    {
        self.pending_hw_delivery = Some(frame);
    }
}

/// Content that changes while a frame stays parked is encoded once there is room: the tick that
/// finds room counts it as a change, whatever it sees itself, and the parked frame is the one that
/// goes out first.
pub proof fn damage_outlasts_a_parked_frame(
    cap: WlCapture,
    frame: Vec<EncodedStripe>,
    damaged: bool,
    again: bool,
)
    ensures
        damaged || cap.pending_hw_damage ==> cap.kept_parked(frame, damaged).dirty(false),
        cap.kept_parked(frame, damaged).kept_parked(frame, again).dirty(false) == (damaged || again
            || cap.pending_hw_damage),
        cap.kept_parked(frame, damaged).pending_hw_delivery == Some(frame),
        cap.kept_parked(frame, damaged).frame_counter == cap.frame_counter,
{
}

/// A keyframe request of a zero-copy capture is answered by a frame or stands for the next tick.
pub proof fn zero_copy_requests_stay_armed(
    cap: WlCapture,
    data: Option<Result<Vec<u8>, ()>>,
    requested: bool,
    frame_out: bool,
)
    ensures
        requested && !frame_out ==> cap.zero_copied(data, requested, frame_out).0.pending_force_idr,
        frame_out ==> !cap.zero_copied(data, requested, frame_out).0.pending_force_idr,
{
}

/// An output that rendered: its target holds something, and the frame has a number.
pub fn presented(node: &mut OutputNode)
    requires
        old(node).frame_seq < u64::MAX,
    ensures
        *final(node) == (OutputNode {
            target_seeded: true,
            frame_seq: (old(node).frame_seq + 1) as u64,
            ..*old(node)
        }),
{
    node.target_seeded = true;
    node.frame_seq = node.frame_seq + 1;
}

/// A client that copies an output's frames.
#[derive(Clone, Copy, Debug, PartialEq, Eq, Structural)]
pub struct CopySession {
    /// The output it copies; `None` once that is gone.
    pub output: Option<u32>,
    /// A frame of its waits to be filled.
    pub pending: bool,
    /// It has received content.
    pub delivered_once: bool,
}

impl CopySession {
    /// A session's frame is filled from a render: without damage one that already received content
    /// keeps its frame parked, so that a static screen costs nothing.
    pub open spec fn served(self, output: u32, damaged: bool) -> bool {
        self.output == Some(output) && self.pending && (damaged || !self.delivered_once)
    }

    /// Whether a session's frame is filled from a render.
    pub fn is_served(&self, output: u32, damaged: bool) -> (b: bool)
        ensures
            b == self.served(output, damaged),
    {
        let mine = match self.output {
            Some(o) => o == output,
            None => false,
        };
        mine && self.pending && (damaged || !self.delivered_once)
    }

    /// A session's frame was filled, or could not be. Returns whether the client is told what was
    /// damaged: with its first content everything is new.
    pub fn copied(&mut self, ok: bool) -> (tell_damage: bool)
        ensures
            *final(self) == (CopySession {
                pending: false,
                delivered_once: old(self).delivered_once || ok,
                ..*old(self)
            }),
            tell_damage == (ok && old(self).delivered_once),
    {
        let first = !self.delivered_once;
        self.pending = false;
        if ok {
            self.delivered_once = true;
        }
        ok && !first
    }
}

/// The sessions among the first `n` that a render serves.
pub open spec fn served_upto(
    sessions: Seq<CopySession>,
    output: u32,
    damaged: bool,
    n: int,
) -> Seq<usize>
    decreases n,
{
    if n <= 0 {
        Seq::empty()
    } else if sessions[n - 1].served(output, damaged) {
        served_upto(sessions, output, damaged, n - 1).push((n - 1) as usize)
    } else {
        served_upto(sessions, output, damaged, n - 1)
    }
}

/// The sessions whose parked frames a render of this output fills.
pub fn service_copy_frames(sessions: &Vec<CopySession>, output: u32, damage: &[Rect]) -> (r: Vec<
    usize,
>)
    ensures
        r@ == served_upto(sessions@, output, damage@.len() != 0, sessions@.len() as int),
{
    let mut r: Vec<usize> = Vec::new();
    let damaged = damage.len() != 0;
    let mut i: usize = 0;
    while i < sessions.len()
        invariant
            i <= sessions@.len(),
            r@ == served_upto(sessions@, output, damaged, i as int),
        decreases sessions@.len() - i,
    {
        if sessions[i].is_served(output, damaged) {
            r.push(i);
        }
        i += 1;
    }
    r
}

/// A screenshot's pixels in the order that an image has them, or why there are none.
pub fn screenshot_pixels(frame: &Vec<u8>, rgba: bool) -> (r: Result<Vec<u8>, String>)
    ensures
        r is Err <==> frame@.len() == 0,
        r matches Err(e) ==> e@ == "Screenshot render produced no pixels"@,
        r matches Ok(px) ==> px@.len() == frame@.len() && forall|i: int|
            0 <= i < frame@.len() ==> #[trigger] px@[i] == if rgba || i >= frame@.len() / 4 * 4 {
                frame@[i]
            } else {
                pixels::exchanged(frame@, i)
            },
{
    if frame.len() == 0 {
        return Err("Screenshot render produced no pixels".to_owned());
    }
    let mut px: Vec<u8> = frame.clone();
    assert(px@ =~= frame@);
    if !rgba {
        swap_red_blue(&mut px);
    }
    Ok(px)
}

/// Whether a screenshot's pixels are in the order an image has them: the GPU's are, unless the
/// frame came from a host as software pixels.
pub fn screenshot_is_rgba(use_gpu: bool, host_cpu_frame: bool) -> (b: bool)
    ensures
        b == (use_gpu && !host_cpu_frame),
{
    use_gpu && !host_cpu_frame
}

} // verus!
