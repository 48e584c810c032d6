//! Starting a capture on a display, or reconfiguring the one that runs: the output's mode, the
//! encode path, and the capture that comes of them.
//!
//! What only a device can answer (a render target of the new size, an encoder session, a host's
//! connection) is asked between the steps, and its answer handed to the next one.

use vstd::prelude::*;
use vstd::string::*;
use crate::clock::{Duration, Instant};
use crate::encode_loop;
use crate::encode_loop::{open_on_device, BuildStep, GpuEncoder, WlEncodeControls};
use crate::encoders;
use crate::layout;
use crate::layout::to_logical;
use crate::lifecycle;
use crate::lifecycle::{make_even, take_request, Answer};
use crate::pool::WL_POOL_SURFACES;
use crate::recording_sink::RecordingSink;
use crate::session;
use crate::session::{fill_encode_index, set_wayland_capture_err};
use crate::settings::RustCaptureSettings;
use crate::text;
use crate::text::{append_signed, append_unsigned, chars_of, contains};
use crate::wayland;
use crate::wayland::{node_idx_for_id, Compositor, Mode, OutputNode, PendingHostLayout, WlCapture, Window};

verus! {

broadcast use vstd::std_specs::hash::group_hash_axioms;

/// How long a reconfigured output holds its frames while its clients answer the new size, in
/// nanoseconds. It outlasts the rebuild of the encode path and a client's own repaint, and is the
/// whole delay of an output that no client ever draws on.
pub const WL_CONTENT_HOLD_NS: u64 = 500_000_000;

/// The settings a start comes to: an encode device that was not chosen is that of a render node
/// that was picked, and H.264 has even dimensions.
pub open spec fn resolved(c: Compositor, s: RustCaptureSettings) -> RustCaptureSettings {
    RustCaptureSettings {
        encode_node_index: if c.auto_gpu_selected {
            session::filled_index(s.encode_node_index, Some(c.render_node_path@)) as i32
        } else {
            s.encode_node_index
        },
        width: if s.output_mode == 1 {
            lifecycle::even(s.width) as i32
        } else {
            s.width
        },
        height: if s.output_mode == 1 {
            lifecycle::even(s.height) as i32
        } else {
            s.height
        },
        ..s
    }
}

/// Why a start on an unknown display fails.
pub open spec fn no_output_text(id: u32) -> Seq<char> {
    "no output with display id "@ + text::decimal(id as nat)
}

/// What a start found: the settings it comes to, the readers of the layout request that it
/// supersedes, and the capture that it replaces, whose session may be reused.
#[derive(Debug)]
pub struct Prepared {
    pub settings: RustCaptureSettings,
    pub waiters: Vec<u64>,
    pub prior: Option<WlCapture>,
}

/// The render node's number leaves room for the device's.
pub open spec fn node_in_range(c: Compositor) -> bool {
    session::node_number(c.render_node_path@) is Some ==> session::node_number(
        c.render_node_path@,
    )->0 - 128 >= i32::MIN
}

/// The refresh rate of a settings value, in thousandths of a hertz; the largest a mode can hold
/// where the frame rate is beyond it.
pub open spec fn refresh_of(s: RustCaptureSettings) -> int {
    if s.target_fps_milli > i32::MAX {
        i32::MAX as int
    } else {
        s.target_fps_milli as int
    }
}

fn refresh(s: &RustCaptureSettings) -> (r: i32)
    ensures
        r == refresh_of(*s),
{
    if s.target_fps_milli > 0x7fff_ffff {
        i32::MAX
    } else {
        s.target_fps_milli as i32
    }
}

/// The mode an output has, or the one asked for where it has none.
pub open spec fn current_mode(n: OutputNode, s: RustCaptureSettings) -> Mode {
    match n.mode {
        Some(m) => m,
        None => Mode { w: s.width, h: s.height, refresh: refresh_of(s) as i32 },
    }
}

/// Two scales differ by more than a thousandth.
pub open spec fn scale_differs(a: u32, b: u32) -> bool {
    a > b + 1000 || b > a + 1000
}

/// An output has to be reconfigured for a settings value.
pub open spec fn mode_differs(n: OutputNode, s: RustCaptureSettings) -> bool {
    let m = current_mode(n, s);
    m.w != s.width || m.h != s.height || scale_differs(n.scale_micro, s.scale_micro) || m.refresh
        != refresh_of(s)
}

/// The caveat of a capture whose output could not be resized.
pub open spec fn resize_text(s: RustCaptureSettings, m: Mode) -> Seq<char> {
    "GPU buffer resize to "@ + text::signed_decimal(s.width as int) + "x"@ + text::signed_decimal(
        s.height as int,
    ) + " refused; kept "@ + text::signed_decimal(m.w as int) + "x"@ + text::signed_decimal(
        m.h as int,
    )
}

/// The settings of a capture whose output kept its mode.
pub open spec fn kept_settings(n: OutputNode, s: RustCaptureSettings) -> RustCaptureSettings {
    let m = current_mode(n, s);
    RustCaptureSettings {
        width: m.w,
        height: m.h,
        scale_micro: n.scale_micro,
        target_fps_milli: m.refresh as u32,
        ..s
    }
}

/// The bytes of a frame of this size; none where it has no pixels.
pub open spec fn frame_len(w: i32, h: i32) -> int {
    if w > 0 && h > 0 {
        w * h * 4
    } else {
        0
    }
}

/// The bytes of a frame of this size; none where it has no pixels.
pub fn frame_bytes(w: i32, h: i32) -> (n: usize)
    requires
        frame_len(w, h) <= usize::MAX,
    ensures
        n == frame_len(w, h),
{
    if w > 0 && h > 0 {
        assert(w * h <= 0x7fff_ffff * 0x7fff_ffff) by (nonlinear_arith)
            requires
                0 < w <= 0x7fff_ffff,
                0 < h <= 0x7fff_ffff,
        ;
        (w as u64 * h as u64 * 4) as usize
    } else {
        0
    }
}

/// An output reconfigured for a settings value.
pub open spec fn configured(before: OutputNode, after: OutputNode, s: RustCaptureSettings) -> bool {
    &&& after.mode == Some(Mode { w: s.width, h: s.height, refresh: refresh_of(s) as i32 })
    &&& after.scale_micro == s.scale_micro
    &&& after.frame_buffer@ == Seq::new(frame_len(s.width, s.height) as nat, |_i: int| 0u8)
    &&& !after.target_seeded
    &&& after.id == before.id
    &&& after.name == before.name
    &&& after.pos == before.pos
    &&& after.capture == before.capture
    &&& after.frame_seq == before.frame_seq
    &&& after.content_hold_until == before.content_hold_until
}

fn resize_line(n: &OutputNode, s: &RustCaptureSettings) -> (why: String)
    ensures
        why@ == resize_text(*s, current_mode(*n, *s)),
{
    let (w, h): (i32, i32) = match n.mode {
        Some(m) => (m.w, m.h),
        None => (s.width, s.height),
    };
    let mut why = "GPU buffer resize to ".to_owned();
    append_signed(&mut why, s.width as i64);
    why.append("x");
    append_signed(&mut why, s.height as i64);
    why.append(" refused; kept ");
    append_signed(&mut why, w as i64);
    why.append("x");
    append_signed(&mut why, h as i64);
    why
}

fn keep_settings(n: &OutputNode, s: RustCaptureSettings) -> (r: RustCaptureSettings)
    requires
        n.mode matches Some(m) ==> m.refresh >= 0,
    ensures
        r == kept_settings(*n, s),
{
    let rate: i32 = refresh(&s);
    let mut r = s;
    match n.mode {
        Some(m) => {
            r.width = m.w;
            r.height = m.h;
            r.target_fps_milli = m.refresh as u32;
        },
        None => {
            r.target_fps_milli = rate as u32;
        },
    }
    r.scale_micro = n.scale_micro;
    r
}

fn configure(node: &mut OutputNode, s: &RustCaptureSettings)
    requires
        frame_len(s.width, s.height) <= usize::MAX,
    ensures
        configured(*old(node), *final(node), *s),
{
    let len: usize = frame_bytes(s.width, s.height);
    let buffer: Vec<u8> = vec![0u8; len];
    assert(buffer@ =~= Seq::new(frame_len(s.width, s.height) as nat, |_i: int| 0u8));
    node.mode = Some(Mode { w: s.width, h: s.height, refresh: refresh(s) });
    node.scale_micro = s.scale_micro;
    node.frame_buffer = buffer;
    node.target_seeded = false;
}

/// The encode path of a start.
#[derive(Clone, Copy, Debug, PartialEq, Eq, Structural)]
pub struct EncodePath {
    /// Software was asked for.
    pub cpu_explicit: bool,
    /// H.264 on a device is wanted.
    pub gpu_intent: bool,
    /// The device that encodes is not the one that renders.
    pub different_gpu: bool,
    /// A session that encodes the rendered buffer itself is tried.
    pub zero_copy: bool,
}

/// The name of the render node of a device.
pub open spec fn render_node_name(index: i32) -> Seq<char> {
    "renderD"@ + text::signed_decimal(
        128 + if index < 0 {
            0
        } else {
            index as int
        },
    )
}

/// The encode path of a settings value: only a session on the GPU that renders encodes zero-copy.
pub open spec fn path_of(c: Compositor, s: RustCaptureSettings) -> EncodePath {
    let cpu_explicit = s.use_cpu || s.encode_node_index == -1;
    let gpu_intent = s.output_mode == 1 && !cpu_explicit;
    let different_gpu = gpu_intent && c.render_node_path@.len() != 0 && !text::holds(
        c.render_node_path@,
        render_node_name(s.encode_node_index),
    );
    EncodePath {
        cpu_explicit,
        gpu_intent,
        different_gpu,
        zero_copy: gpu_intent && c.use_gpu && !different_gpu,
    }
}

/// How the readback path of a start is brought up.
#[derive(Clone, Copy, Debug, PartialEq, Eq, Structural)]
pub struct Readback {
    /// The rows come in the GPU's colour order: host frames never do.
    pub use_gpu: bool,
    /// A hardware session is tried.
    pub try_gpu: bool,
    /// The length of each pooled buffer.
    pub buf_len: usize,
}

/// The controls of a readback path that starts: the capture's own rate.
pub open spec fn seeded(c: WlEncodeControls, s: RustCaptureSettings) -> WlEncodeControls {
    WlEncodeControls {
        bitrate_kbps: s.video_bitrate_kbps,
        vbv_mult_milli: s.video_vbv_multiplier_milli,
        fps_milli: encoders::budget_fps_milli(s.target_fps_milli) as u32,
        ..c
    }
}

/// A capture whose readback path was brought up: every pooled buffer counts as stale, so that each
/// is read back before it is first published.
pub open spec fn bootstrapped(before: WlCapture, after: WlCapture) -> bool {
    &&& after.readback
    &&& after.pool_last_render@ == Seq::new(WL_POOL_SURFACES as nat, |_i: int| 0u64)
    &&& after.render_seq == 0
    &&& after.pool_content_gen@ == Seq::new(WL_POOL_SURFACES as nat, |_i: int| u64::MAX)
    &&& after.content_gen == 0
    &&& after.controls == seeded(before.controls, before.settings)
    &&& after.settings == before.settings
    &&& after.session == before.session
    &&& after.hw_state == before.hw_state
    &&& after.recording_sink == before.recording_sink
    &&& after.delivers == before.delivers
    &&& after.pending_hw_delivery == before.pending_hw_delivery
    &&& after.pending_hw_damage == before.pending_hw_damage
    &&& after.frame_counter == before.frame_counter
    &&& after.pending_force_idr == before.pending_force_idr
    &&& after.needs_full_render == before.needs_full_render
    &&& after.last_tick == before.last_tick
    &&& after.hw_error_streak == before.hw_error_streak
    &&& after.hw_rebuilt == before.hw_rebuilt
}

/// Bring up the readback encode path of a capture whose zero-copy session is absent or just died,
/// and return the length of a pooled buffer. Nothing is brought up where nobody takes the frames.
pub fn bootstrap_readback_pool(cap: &mut WlCapture) -> (buf_len: Option<usize>)
    requires
        frame_len(old(cap).settings.width, old(cap).settings.height) <= usize::MAX,
    ensures
        buf_len is Some <==> old(cap).delivers,
        !old(cap).delivers ==> *final(cap) == *old(cap),
        old(cap).delivers ==> bootstrapped(*old(cap), *final(cap)) && buf_len->0 == frame_len(
            old(cap).settings.width,
            old(cap).settings.height,
        ),
{
    if !cap.delivers {
        return None;
    }
    let buf_len: usize = frame_bytes(cap.settings.width, cap.settings.height);
    cap.pool_last_render = vec![0u64; WL_POOL_SURFACES];
    assert(cap.pool_last_render@ =~= Seq::new(WL_POOL_SURFACES as nat, |_i: int| 0u64));
    cap.render_seq = 0;
    cap.pool_content_gen = vec![u64::MAX; WL_POOL_SURFACES];
    assert(cap.pool_content_gen@ =~= Seq::new(WL_POOL_SURFACES as nat, |_i: int| u64::MAX));
    cap.content_gen = 0;
    cap.controls.seed_rate(&cap.settings);
    cap.readback = true;
    Some(buf_len)
}

/// The readback path tries hardware unless the operator opted out.
pub fn readback_tries_gpu(s: &RustCaptureSettings) -> (b: bool)
    ensures
        b == (s.output_mode == 1 && !(s.use_cpu || s.encode_node_index == -1)),
{
    s.output_mode == 1 && !(s.use_cpu || s.encode_node_index == -1)
}

/// What a display's host capture is asked for.
#[derive(Clone, Copy, Debug, PartialEq, Eq, Structural)]
pub struct HostRequest {
    pub width: i32,
    pub height: i32,
    /// Dmabufs for a zero-copy session, shared memory for every other consumer.
    pub dmabuf: bool,
    pub paint_cursor: bool,
}

/// The caveat of a capture whose hardware session did not open.
pub open spec fn init_text(nvenc: bool, e: Seq<char>) -> Seq<char> {
    (if nvenc {
        "NVENC init failed ("@
    } else {
        "VAAPI init failed ("@
    }) + e + "); using CPU encode"@
}

/// The caveat of a capture whose host could not be reached.
pub open spec fn connect_text(host: Seq<char>, e: Seq<char>) -> Seq<char> {
    "host compositor '"@ + host + "' connect failed ("@ + e + "); capturing locally"@
}

/// Nothing but what a start records of its outcome differs.
pub open spec fn only_error(before: Compositor, after: Compositor, id: u32, why: Seq<char>) -> bool {
    &&& after.book.errors@.dom() == before.book.errors@.dom().insert(id)
    &&& after.book.errors@[id]@ == why
    &&& forall|d: u32|
        d != id && before.book.errors@.dom().contains(d) ==> #[trigger] after.book.errors@[d]
            == before.book.errors@[d]
    &&& after.book.alive == before.book.alive
    &&& after.book.owners == before.book.owners
    &&& after.nodes == before.nodes
    &&& after.windows == before.windows
    &&& after.pending_windows == before.pending_windows
    &&& after.host_layout_pending == before.host_layout_pending
    &&& after.same_but_captures(before)
}

/// The capture a start leaves on its output.
pub open spec fn started(
    cap: WlCapture,
    s: RustCaptureSettings,
    encoder: Option<GpuEncoder>,
    sink: Option<RecordingSink>,
) -> bool {
    &&& cap.settings == s
    &&& cap.session == encoder
    &&& cap.recording_sink == sink
    &&& cap.readback == (encoder is None)
    &&& cap.controls.force_idr == (encoder is None)
    &&& cap.pending_force_idr == (encoder is Some)
    &&& cap.needs_full_render
    &&& cap.frame_counter == 0
    &&& cap.last_tick is None
    &&& cap.hw_error_streak == 0
    &&& !cap.hw_rebuilt
    &&& cap.pending_hw_delivery is None
    &&& !cap.pending_hw_damage
    &&& cap.delivers
    &&& !cap.controls.rate_dirty
    &&& !cap.controls.tunables_dirty
    &&& encoder is None ==> {
        &&& cap.controls.bitrate_kbps == s.video_bitrate_kbps
        &&& cap.controls.vbv_mult_milli == s.video_vbv_multiplier_milli
        &&& cap.controls.fps_milli == encoders::budget_fps_milli(s.target_fps_milli)
        &&& cap.pool_last_render@ == Seq::new(WL_POOL_SURFACES as nat, |_i: int| 0u64)
        &&& cap.pool_content_gen@ == Seq::new(WL_POOL_SURFACES as nat, |_i: int| u64::MAX)
        &&& cap.content_gen == 0
        &&& cap.render_seq == 0
    }
}

impl Compositor {
    /// Begin a start on a display: the outcome of the last one is dropped, the capture that runs
    /// is taken out for its sessions to be reused, and the settings are resolved. An unknown
    /// display fails.
    pub fn prepare_start(&mut self, display_id: u32, settings: RustCaptureSettings) -> (r: Option<
        Prepared,
    >)
        requires
            node_in_range(*old(self)),
        ensures
            match wayland::index_of(old(self).nodes@, display_id) {
                None => r is None && only_error(
                    *old(self),
                    *final(self),
                    display_id,
                    no_output_text(display_id),
                ),
                Some(i) => {
                    &&& r is Some
                    &&& r->0.settings == resolved(*old(self), settings)
                    &&& r->0.waiters@ == lifecycle::waiters_of(
                        old(self).host_layout_pending@,
                        display_id,
                    )
                    &&& r->0.prior == old(self).nodes@[i].capture
                    &&& final(self).nodes@ == old(self).nodes@.update(i, final(self).nodes@[i])
                    &&& lifecycle::uncaptured(old(self).nodes@[i], final(self).nodes@[i])
                    &&& final(self).host_layout_pending@ == lifecycle::requests_without(
                        old(self).host_layout_pending@,
                        display_id,
                    )
                    &&& final(self).book.errors@ == old(self).book.errors@.remove(display_id)
                    &&& final(self).book.alive == old(self).book.alive
                    &&& final(self).book.owners == old(self).book.owners
                    &&& final(self).windows == old(self).windows
                    &&& final(self).pending_windows == old(self).pending_windows
                    &&& final(self).same_but_captures(*old(self))
                },
            },
    {
        let settings = self.resolve_settings(settings);
        set_wayland_capture_err(&mut self.book, display_id, None);
        let idx: usize = match node_idx_for_id(&self.nodes, display_id) {
            None => {
                let mut why = "no output with display id ".to_owned();
                append_unsigned(&mut why, display_id as u64);
                set_wayland_capture_err(&mut self.book, display_id, Some(why));
                assert(self.book.errors@.dom() =~= old(self).book.errors@.dom().insert(display_id));
                return None;
            },
            Some(i) => i,
        };
        let ghost nodes = self.nodes@;
        let node = &mut self.nodes[idx];
        let prior = node.capture.take();
        assert(self.nodes@ =~= nodes.update(idx as int, self.nodes@[idx as int]));
        let waiters: Vec<u64> = match take_request(&mut self.host_layout_pending, display_id) {
            Some(p) => p.waiters,
            None => Vec::new(),
        };
        assert(waiters@ =~= lifecycle::waiters_of(old(self).host_layout_pending@, display_id));
        Some(Prepared { settings, waiters, prior })
    }

    fn resolve_settings(&self, settings: RustCaptureSettings) -> (s: RustCaptureSettings)
        requires
            node_in_range(*self),
        ensures
            s == resolved(*self, settings),
    {
        let mut settings = settings;
        if self.auto_gpu_selected {
            settings.encode_node_index = fill_encode_index(
                settings.encode_node_index,
                Some(self.render_node_path.as_str()),
            );
        }
        if settings.output_mode == 1 {
            settings.width = make_even(settings.width);
            settings.height = make_even(settings.height);
        }
        settings
    }

    /// The host compositor could not be reached: the display composites locally, and says so.
    pub fn host_connect_failed(&mut self, display_id: u32, host: &str, e: &str)
        ensures
            only_error(*old(self), *final(self), display_id, connect_text(host@, e@)),
    {
        let mut why = "host compositor '".to_owned();
        why.append(host);
        why.append("' connect failed (");
        why.append(e);
        why.append("); capturing locally");
        set_wayland_capture_err(&mut self.book, display_id, Some(why));
        assert(self.book.errors@.dom() =~= old(self).book.errors@.dom().insert(display_id));
    }

    /// A hardware session did not open: the capture falls back to software, and says so.
    pub fn encoder_init_failed(&mut self, display_id: u32, nvenc: bool, e: &str)
        ensures
            only_error(*old(self), *final(self), display_id, init_text(nvenc, e@)),
    {
        let mut why = if nvenc {
            "NVENC init failed (".to_owned()
        } else {
            "VAAPI init failed (".to_owned()
        };
        why.append(e);
        why.append("); using CPU encode");
        set_wayland_capture_err(&mut self.book, display_id, Some(why));
        assert(self.book.errors@.dom() =~= old(self).book.errors@.dom().insert(display_id));
    }

    /// Whether an output has to be reconfigured, which takes a render target of the new size.
    pub fn needs_mode_change(&self, idx: usize, settings: &RustCaptureSettings) -> (b: bool)
        requires
            idx < self.nodes@.len(),
        ensures
            b == mode_differs(self.nodes@[idx as int], *settings),
    {
        let n: &OutputNode = &self.nodes[idx];
        let target: i32 = refresh(settings);
        let (w, h, refresh): (i32, i32, i32) = match n.mode {
            Some(m) => (m.w, m.h, m.refresh),
            None => (settings.width, settings.height, target),
        };
        let (a, b): (u64, u64) = (n.scale_micro as u64, settings.scale_micro as u64);
        w != settings.width || h != settings.height || a > b + 1000 || b > a + 1000 || refresh != target
    }

    /// Reprogram a display's output for a start. Where the render target of the new size was
    /// refused nothing is committed, and the settings become what the output shows: a failed
    /// resize degrades to no resize.
    pub fn commit_mode(
        &mut self,
        display_id: u32,
        settings: RustCaptureSettings,
        backed: bool,
    ) -> (s: RustCaptureSettings)
        requires
            wayland::index_of(old(self).nodes@, display_id) is Some,
            frame_len(settings.width, settings.height) <= usize::MAX,
            old(self).nodes@[wayland::index_of(old(self).nodes@, display_id)->0].mode matches Some(m)
                ==> m.refresh >= 0,
        ensures
            ({
                let i = wayland::index_of(old(self).nodes@, display_id)->0;
                let n = old(self).nodes@[i];
                if !mode_differs(n, settings) {
                    s == settings && *final(self) == *old(self)
                } else if !backed {
                    s == kept_settings(n, settings) && only_error(
                        *old(self),
                        *final(self),
                        display_id,
                        resize_text(settings, current_mode(n, settings)),
                    )
                } else {
                    &&& s == settings
                    &&& final(self).nodes@ == old(self).nodes@.update(i, final(self).nodes@[i])
                    &&& configured(n, final(self).nodes@[i], settings)
                    &&& final(self).windows == old(self).windows
                    &&& final(self).pending_windows == old(self).pending_windows
                    &&& final(self).host_layout_pending == old(self).host_layout_pending
                    &&& final(self).book == old(self).book
                    &&& final(self).same_but_captures(*old(self))
                }
            }),
    {
        let idx: usize = match node_idx_for_id(&self.nodes, display_id) {
            Some(i) => i,
            None => {
                return settings;
            },
        };
        if !self.needs_mode_change(idx, &settings) {
            return settings;
        }
        if !backed {
            let why = resize_line(&self.nodes[idx], &settings);
            set_wayland_capture_err(&mut self.book, display_id, Some(why));
            assert(self.book.errors@.dom() =~= old(self).book.errors@.dom().insert(display_id));
            return keep_settings(&self.nodes[idx], settings);
        }
        let ghost nodes = self.nodes@;
        configure(&mut self.nodes[idx], &settings);
        assert(self.nodes@ =~= nodes.update(idx as int, self.nodes@[idx as int]));
        settings
    }

    /// The size that a display's windows are fullscreened at, in logical pixels; the scale is at
    /// least a tenth.
    pub fn window_size(settings: &RustCaptureSettings) -> (r: (i32, i32))
        ensures
            ({
                let scale = if settings.scale_micro < 100_000 {
                    100_000u32
                } else {
                    settings.scale_micro
                };
                &&& r.0 == layout::scaled(settings.width, scale)
                &&& r.1 == layout::scaled(settings.height, scale)
            }),
    {
        let scale: u32 = if settings.scale_micro < 100_000 {
            100_000
        } else {
            settings.scale_micro
        };
        (to_logical(settings.width, scale), to_logical(settings.height, scale))
    }

    /// A window is fullscreened by a start on its display: one that is parked holds its size.
    pub open spec fn fullscreened(w: Window, display_id: u32) -> bool {
        w.output == display_id && !w.parked
    }

    /// The windows that a start on a display fullscreens, in order.
    pub open spec fn fullscreen_ids(windows: Seq<Window>, display_id: u32, n: int) -> Seq<u32>
        decreases n,
    {
        if n <= 0 {
            Seq::empty()
        } else if Compositor::fullscreened(windows[n - 1], display_id) {
            Compositor::fullscreen_ids(windows, display_id, n - 1).push(windows[n - 1].id)
        } else {
            Compositor::fullscreen_ids(windows, display_id, n - 1)
        }
    }

    /// The windows that a start on a display fullscreens at the new size.
    pub fn windows_to_fullscreen(&self, display_id: u32) -> (ids: Vec<u32>)
        ensures
            ids@ == Compositor::fullscreen_ids(
                self.windows@,
                display_id,
                self.windows@.len() as int,
            ),
    {
        let mut ids: Vec<u32> = Vec::new();
        let mut i: usize = 0;
        while i < self.windows.len()
            invariant
                i <= self.windows@.len(),
                ids@ == Compositor::fullscreen_ids(self.windows@, display_id, i as int),
            decreases self.windows@.len() - i,
        {
            if self.windows[i].output == display_id && !self.windows[i].parked {
                ids.push(self.windows[i].id);
            }
            i += 1;
        }
        ids
    }

    /// The encode path of a start. A device that renders elsewhere than it encodes forces the
    /// readback path.
    pub fn encode_path(&self, settings: &RustCaptureSettings) -> (p: EncodePath)
        requires
            settings.encode_node_index <= i32::MAX - 128,
        ensures
            p == path_of(*self, *settings),
    {
        let cpu_explicit = settings.use_cpu || settings.encode_node_index == -1;
        let gpu_intent = settings.output_mode == 1 && !cpu_explicit;
        let mut different_gpu = false;
        if gpu_intent {
            let index: i64 = if settings.encode_node_index < 0 {
                0
            } else {
                settings.encode_node_index as i64
            };
            if self.render_node_path.as_str().unicode_len() != 0 {
                let mut name = "renderD".to_owned();
                append_signed(&mut name, 128 + index);
                assert(name@ =~= render_node_name(settings.encode_node_index));
                let path = chars_of(self.render_node_path.as_str());
                let part = chars_of(name.as_str());
                different_gpu = !contains(path.as_slice(), part.as_slice());
            }
        }
        EncodePath {
            cpu_explicit,
            gpu_intent,
            different_gpu,
            zero_copy: gpu_intent && self.use_gpu && !different_gpu,
        }
    }

    /// The first thing to try for the session of the zero-copy path, on the device's driver: the
    /// session of the capture that this one replaces is reused where it can be. VA-API is tried for
    /// 4:4:4 too here, and its session tells what it carries.
    pub fn zero_copy_step(path: &EncodePath, driver: &str, prior: &Option<WlCapture>) -> (step:
        BuildStep)
        ensures
            step == if path.zero_copy {
                encode_loop::device_step(
                    driver@,
                    match *prior {
                        Some(c) => c.session,
                        None => None,
                    },
                )
            } else {
                BuildStep::Done(None)
            },
    {
        let session: Option<GpuEncoder> = match prior {
            Some(c) => c.session,
            None => None,
        };
        if path.zero_copy {
            open_on_device(driver, session)
        } else {
            BuildStep::Done(None)
        }
    }

    /// What a display's host is asked for once the encode path is settled: the buffer type follows
    /// the consumer.
    pub fn host_request(settings: &RustCaptureSettings, encoder: Option<GpuEncoder>) -> (r: HostRequest)
        ensures
            r == (HostRequest {
                width: settings.width,
                height: settings.height,
                dmabuf: encoder is Some,
                paint_cursor: settings.capture_cursor,
            }),
    {
        HostRequest {
            width: settings.width,
            height: settings.height,
            dmabuf: encoder.is_some(),
            paint_cursor: settings.capture_cursor,
        }
    }

    /// Whether the user is told that the recording socket will stay silent: it carries H.264.
    pub fn warns_recording(settings: &RustCaptureSettings, sink: &Option<RecordingSink>) -> (b: bool)
        ensures
            b == (sink is Some && settings.output_mode == 0),
    {
        sink.is_some() && settings.output_mode == 0
    }

    /// Finish a start: the display's output gets its capture, with the zero-copy session or on the
    /// readback path, and a keyframe armed, since a restarted capture of a static screen would
    /// otherwise send nothing. Its frames are held until a client answers the new size. Readers
    /// of the geometry ride on the request to the host (`epoch`), or are answered where there is
    /// none.
    pub fn start_capture_on_display(
        &mut self,
        display_id: u32,
        prepared: Prepared,
        path: EncodePath,
        encoder: Option<GpuEncoder>,
        sink: Option<RecordingSink>,
        epoch: Option<u64>,
        now: Instant,
    ) -> (r: (Option<Readback>, Answer))
        requires
            wayland::index_of(old(self).nodes@, display_id) is Some,
            frame_len(prepared.settings.width, prepared.settings.height) <= usize::MAX,
            now.nanos + WL_CONTENT_HOLD_NS <= u64::MAX,
        ensures
            ({
                let i = wayland::index_of(old(self).nodes@, display_id)->0;
                let s = prepared.settings;
                let before = old(self).nodes@[i];
                let after = final(self).nodes@[i];
                &&& final(self).nodes@ == old(self).nodes@.update(i, after)
                &&& after.capture is Some
                &&& started(after.capture->0, s, encoder, sink)
                &&& after.content_hold_until == Some(
                    Instant { nanos: (now.nanos + WL_CONTENT_HOLD_NS) as u64 },
                )
                &&& after.id == before.id
                &&& after.name == before.name
                &&& after.pos == before.pos
                &&& after.mode == before.mode
                &&& after.scale_micro == before.scale_micro
                &&& after.frame_buffer == before.frame_buffer
                &&& after.frame_seq == before.frame_seq
                &&& after.target_seeded == before.target_seeded
                &&& final(self).book.alive@ == old(self).book.alive@.insert(display_id)
                &&& final(self).book.errors == old(self).book.errors
                &&& final(self).book.owners == old(self).book.owners
                &&& final(self).settings == if display_id == 0 {
                    s
                } else {
                    old(self).settings
                }
                &&& final(self).render_cursor_on_framebuffer == s.capture_cursor
                &&& r.0 == if encoder is None {
                    Some(
                        Readback {
                            use_gpu: old(self).use_gpu && epoch is None,
                            try_gpu: path.gpu_intent && (!old(self).use_gpu || path.different_gpu),
                            buf_len: frame_len(s.width, s.height) as usize,
                        },
                    )
                } else {
                    None
                }
                &&& r.1.display_id == display_id
                &&& match epoch {
                    Some(e) => {
                        let p = final(self).host_layout_pending@.last();
                        &&& final(self).host_layout_pending@
                            == old(self).host_layout_pending@.push(p)
                        &&& p.display_id == display_id
                        &&& p.epoch == e
                        &&& p.want == (s.width, s.height)
                        &&& p.waiters == prepared.waiters
                        &&& r.1.waiters@.len() == 0
                    },
                    None => {
                        &&& final(self).host_layout_pending@ == old(self).host_layout_pending@
                        &&& r.1.waiters == prepared.waiters
                    },
                }
                &&& r.1.geometry == (s.width, s.height, s.scale_micro)
                &&& final(self).windows == old(self).windows
                &&& final(self).pending_windows == old(self).pending_windows
                &&& final(self).use_gpu == old(self).use_gpu
                &&& final(self).render_node_path == old(self).render_node_path
                &&& final(self).auto_gpu_selected == old(self).auto_gpu_selected
                &&& final(self).host_outputs == old(self).host_outputs
            }),
    {
        let Prepared { settings, waiters, prior: _ } = prepared;
        let geometry: (i32, i32, u32) = (settings.width, settings.height, settings.scale_micro);
        let want: (i32, i32) = (settings.width, settings.height);
        let host = epoch.is_some();
        let mut answer = Answer { display_id, waiters: Vec::new(), geometry };
        match epoch {
            Some(e) => {
                self.host_layout_pending.push(
                    PendingHostLayout { display_id, epoch: e, want, waiters },
                );
            },
            None => {
                answer.waiters = waiters;
            },
        }
        if display_id == 0 {
            self.settings = settings.clone();
        }
        self.render_cursor_on_framebuffer = settings.capture_cursor;
        let mut cap = WlCapture::new(settings, encoder, sink);
        let mut readback: Option<Readback> = None;
        if encoder.is_none() {
            if let Some(buf_len) = bootstrap_readback_pool(&mut cap) {
                readback = Some(
                    Readback {
                        use_gpu: self.use_gpu && !host,
                        try_gpu: path.gpu_intent && (!self.use_gpu || path.different_gpu),
                        buf_len,
                    },
                );
            }
        }
        cap.request_idr();
        let ghost nodes = self.nodes@;
        if let Some(idx) = node_idx_for_id(&self.nodes, display_id) {
            let node = &mut self.nodes[idx];
            node.capture = Some(cap);
            node.content_hold_until = Some(now.plus(Duration { nanos: WL_CONTENT_HOLD_NS }));
            assert(self.nodes@ =~= nodes.update(idx as int, self.nodes@[idx as int]));
        }
        let _ = self.book.alive.insert(display_id);
        (readback, answer)
    }
}

/// A start that came up reports a running capture, whatever caveat it carries, and the size it
/// realized.
pub proof fn a_started_capture_runs(
    before: Compositor,
    after: Compositor,
    id: u32,
    s: RustCaptureSettings,
    encoder: Option<GpuEncoder>,
    sink: Option<RecordingSink>,
)
    requires
        wayland::index_of(before.nodes@, id) is Some,
        ({
            let i = wayland::index_of(before.nodes@, id)->0;
            &&& after.nodes@ == before.nodes@.update(i, after.nodes@[i])
            &&& after.nodes@[i].id == before.nodes@[i].id
            &&& after.nodes@[i].capture is Some
            &&& started(after.nodes@[i].capture->0, s, encoder, sink)
            &&& after.book.alive@ == before.book.alive@.insert(id)
        }),
    ensures
        session::CaptureState::of(
            after.book.alive@.contains(id),
            after.book.error_of(id) is Some,
        ) == session::CaptureState::Running,
        lifecycle::geometry_of(after.nodes@, id) == (s.width, s.height, s.scale_micro),
{
    wayland::index_finds(before.nodes@, id, 0);
    lifecycle::same_ids_same_index(before.nodes@, after.nodes@, id, 0);
}

/// Software is never opened on a device: where it was asked for, or the stream is JPEG, no session
/// is tried on either path; and zero-copy is tried only on the GPU that renders.
pub proof fn software_stays_off_the_gpu(c: Compositor, s: RustCaptureSettings)
    ensures
        s.use_cpu || s.encode_node_index == -1 || s.output_mode != 1 ==> {
            &&& !path_of(c, s).gpu_intent
            &&& !path_of(c, s).zero_copy
        },
        path_of(c, s).zero_copy ==> c.use_gpu && !path_of(c, s).different_gpu,
{
}

} // verus!
