//! The compositor thread's answers to control messages, and how long it sleeps between ticks.

use vstd::prelude::*;
use vstd::string::*;
use std::collections::HashSet;
use crate::clock;
use crate::clock::{Duration, Instant};
use crate::encode_loop::{GpuEncoder, WlEncodeControls};
use crate::encoders;
use crate::encoders::HW_ERROR_RECOVERY_THRESHOLD;
use crate::layout;
use crate::lifecycle;
use crate::settings::{LiveTunables, RustCaptureSettings, DEFAULT_FPS_MILLI, MAX_FPS_MILLI};
use crate::start;
use crate::text;
use crate::text::{append_unsigned, chars_of, starts_with};
use crate::wayland;
use crate::wayland::{node_idx_for_id, Compositor, OutputNode, WlCapture, Window};

verus! {

/// How often frame callbacks go out while nothing is captured, in nanoseconds: fast enough that a
/// client blocked on one makes progress, slow enough that an unwatched session draws no frames
/// nobody asked for.
pub const IDLE_FRAME_INTERVAL_NS: u64 = 250_000_000;

/// The pace of a tick that someone may be waiting for, in nanoseconds.
pub const PROMPT_INTERVAL_NS: u64 = 16_000_000;

/// How long after an input frame callbacks keep that pace, in nanoseconds.
pub const INPUT_WINDOW_NS: u64 = 1_000_000_000;

/// How fresh an input is that frame callbacks are sent for at once, in nanoseconds.
pub const INPUT_ECHO_NS: u64 = 50_000_000;

/// The shortest sleep between ticks, in nanoseconds.
pub const SHORTEST_WAIT_NS: u64 = 1_000_000;

/// One output as it is listed.
#[derive(Clone, Copy, Debug, PartialEq, Eq, Structural)]
pub struct OutputDesc {
    pub id: u32,
    pub x: i32,
    pub y: i32,
    pub width: i32,
    pub height: i32,
    pub scale_micro: u32,
    pub capturing: bool,
}

/// An output as it is listed.
pub open spec fn desc_of(n: OutputNode) -> OutputDesc {
    OutputDesc {
        id: n.id,
        x: n.pos.0,
        y: n.pos.1,
        width: match n.mode {
            Some(m) => m.w,
            None => 0,
        },
        height: match n.mode {
            Some(m) => m.h,
            None => 0,
        },
        scale_micro: n.scale_micro,
        capturing: n.capture is Some,
    }
}

/// One window as it is listed.
#[derive(Debug)]
pub struct WindowDesc {
    pub id: u32,
    pub title: String,
    pub app_id: String,
    pub output: u32,
    pub parked: bool,
}

/// What a client calls its window and itself, as far as it told.
#[derive(Debug)]
pub struct WindowNames {
    pub title: Option<String>,
    pub app_id: Option<String>,
}

/// A text, empty where none was given.
pub open spec fn text_or_empty(t: Option<String>) -> Seq<char> {
    match t {
        Some(s) => s@,
        None => Seq::empty(),
    }
}

fn or_empty(t: &Option<String>) -> (s: String)
    ensures
        s@ == text_or_empty(*t),
{
    match t {
        Some(s) => s.clone(),
        None => {
            let s = String::new();
            assert(s@ =~= Seq::<char>::empty());
            s
        },
    }
}

/// A window is listed like this.
pub open spec fn listed_as(w: Window, names: WindowNames, d: WindowDesc) -> bool {
    &&& d.id == w.id
    &&& d.title@ == text_or_empty(names.title)
    &&& d.app_id@ == text_or_empty(names.app_id)
    &&& d.output == w.output
    &&& d.parked == w.parked
}

/// The first window from the `i`th on with this number.
pub open spec fn window_from(windows: Seq<Window>, id: u32, i: int) -> Option<int>
    decreases windows.len() - i,
{
    if i >= windows.len() {
        None
    } else if windows[i].id == id {
        Some(i)
    } else {
        window_from(windows, id, i + 1)
    }
}

/// A capture at a new rate: what was not given stays, and so does the frame rate where none is.
pub open spec fn rerated(
    s: RustCaptureSettings,
    bitrate_kbps: Option<i32>,
    vbv_milli: Option<i32>,
    fps_milli: Option<u32>,
) -> RustCaptureSettings {
    RustCaptureSettings {
        video_bitrate_kbps: match bitrate_kbps {
            Some(b) => b,
            None => s.video_bitrate_kbps,
        },
        video_vbv_multiplier_milli: match vbv_milli {
            Some(v) => v,
            None => s.video_vbv_multiplier_milli,
        },
        target_fps_milli: match fps_milli {
            Some(f) => if f > 0 {
                f
            } else {
                s.target_fps_milli
            },
            None => s.target_fps_milli,
        },
        ..s
    }
}

/// A capture whose rate changed: the encode thread finds it in the controls.
pub open spec fn with_rate(
    cap: WlCapture,
    bitrate_kbps: Option<i32>,
    vbv_milli: Option<i32>,
    fps_milli: Option<u32>,
) -> WlCapture {
    let s = rerated(cap.settings, bitrate_kbps, vbv_milli, fps_milli);
    WlCapture {
        settings: s,
        controls: WlEncodeControls { rate_dirty: true, ..start::seeded(cap.controls, s) },
        ..cap
    }
}

/// A capture whose tunables changed.
pub open spec fn with_tunables(cap: WlCapture, t: LiveTunables) -> WlCapture {
    WlCapture {
        settings: t.applied(cap.settings),
        controls: WlEncodeControls {
            tunables: Some(t),
            tunables_dirty: true,
            ..cap.controls
        },
        ..cap
    }
}

fn set_rate(
    s: &mut RustCaptureSettings,
    bitrate_kbps: Option<i32>,
    vbv_milli: Option<i32>,
    fps_milli: Option<u32>,
)
    ensures
        *final(s) == rerated(*old(s), bitrate_kbps, vbv_milli, fps_milli),
{
    if let Some(b) = bitrate_kbps {
        s.video_bitrate_kbps = b;
    }
    if let Some(v) = vbv_milli {
        s.video_vbv_multiplier_milli = v;
    }
    if let Some(f) = fps_milli {
        if f > 0 {
            s.target_fps_milli = f;
        }
    }
}

/// An output but for its capture.
pub open spec fn recaptured(n: OutputNode, cap: Option<WlCapture>) -> OutputNode {
    OutputNode { capture: cap, ..n }
}

/// Nothing but the outputs differs.
pub open spec fn same_but_nodes(a: Compositor, b: Compositor) -> bool {
    &&& a.windows == b.windows
    &&& a.pending_windows == b.pending_windows
    &&& a.host_layout_pending == b.host_layout_pending
    &&& a.book == b.book
    &&& a.use_gpu == b.use_gpu
    &&& a.render_node_path == b.render_node_path
    &&& a.auto_gpu_selected == b.auto_gpu_selected
    &&& a.host_outputs == b.host_outputs
}

/// A display's capture changed, where it has one, and nothing else of the outputs.
pub open spec fn one_capture(
    before: Compositor,
    after: Compositor,
    id: u32,
    change: spec_fn(WlCapture) -> WlCapture,
) -> bool {
    match wayland::index_of(before.nodes@, id) {
        Some(i) => after.nodes@ == before.nodes@.update(
            i,
            recaptured(
                before.nodes@[i],
                match before.nodes@[i].capture {
                    Some(c) => Some(change(c)),
                    None => None,
                },
            ),
        ),
        None => after.nodes == before.nodes,
    }
}

impl Compositor {
    /// How many displays the compositor can back with content: -1 while it composites its own
    /// clients, else the host's outputs.
    pub fn output_capacity(&self) -> (n: i64)
        requires
            self.host_outputs matches Some(h) ==> h <= i64::MAX,
        ensures
            n == match self.host_outputs {
                Some(h) => h as int,
                None => -1,
            },
    {
        match self.host_outputs {
            Some(h) => h as i64,
            None => -1,
        }
    }

    /// Every live output.
    pub fn list_outputs(&self) -> (list: Vec<OutputDesc>)
        ensures
            list@ == self.nodes@.map_values(|n: OutputNode| desc_of(n)),
    {
        let mut list: Vec<OutputDesc> = Vec::new();
        let mut i: usize = 0;
        while i < self.nodes.len()
            invariant
                i <= self.nodes@.len(),
                list@ == self.nodes@.take(i as int).map_values(|n: OutputNode| desc_of(n)),
            decreases self.nodes@.len() - i,
        {
            let n: &OutputNode = &self.nodes[i];
            let (width, height): (i32, i32) = match n.mode {
                Some(m) => (m.w, m.h),
                None => (0, 0),
            };
            list.push(
                OutputDesc {
                    id: n.id,
                    x: n.pos.0,
                    y: n.pos.1,
                    width,
                    height,
                    scale_micro: n.scale_micro,
                    capturing: n.capture.is_some(),
                },
            );
            i += 1;
            assert(list@ =~= self.nodes@.take(i as int).map_values(|n: OutputNode| desc_of(n)));
        }
        assert(self.nodes@.take(i as int) =~= self.nodes@);
        list
    }

    /// Every mapped window, with the names that its client gave.
    pub fn list_windows(&self, names: &Vec<WindowNames>) -> (list: Vec<WindowDesc>)
        requires
            names@.len() == self.windows@.len(),
        ensures
            list@.len() == self.windows@.len(),
            forall|i: int|
                0 <= i < list@.len() ==> listed_as(
                    self.windows@[i],
                    names@[i],
                    #[trigger] list@[i],
                ),
    {
        let mut list: Vec<WindowDesc> = Vec::new();
        let mut i: usize = 0;
        while i < self.windows.len()
            invariant
                i <= self.windows@.len(),
                names@.len() == self.windows@.len(),
                list@.len() == i,
                forall|j: int|
                    0 <= j < i ==> listed_as(self.windows@[j], names@[j], #[trigger] list@[j]),
            decreases self.windows@.len() - i,
        {
            let w: Window = self.windows[i];
            list.push(
                WindowDesc {
                    id: w.id,
                    title: or_empty(&names[i].title),
                    app_id: or_empty(&names[i].app_id),
                    output: w.output,
                    parked: w.parked,
                },
            );
            i += 1;
        }
        list
    }

    /// Move a window onto an output; refused for an unknown window or output.
    pub fn move_window_to_output(&mut self, window_id: u32, output_id: u32) -> (ok: bool)
        ensures
            ok == (window_from(old(self).windows@, window_id, 0) is Some && wayland::index_of(
                old(self).nodes@,
                output_id,
            ) is Some),
            final(self).windows@ == if ok {
                let w = window_from(old(self).windows@, window_id, 0)->0;
                let n = wayland::index_of(old(self).nodes@, output_id)->0;
                old(self).windows@.update(
                    w,
                    layout::placed(old(self).windows@[w], old(self).nodes@[n]),
                )
            } else {
                old(self).windows@
            },
            final(self).nodes == old(self).nodes,
            final(self).pending_windows == old(self).pending_windows,
            final(self).host_layout_pending == old(self).host_layout_pending,
            final(self).book == old(self).book,
            final(self).same_but_captures(*old(self)),
    {
        let mut found: Option<usize> = None;
        let mut i: usize = 0;
        while i < self.windows.len() && found.is_none()
            invariant
                i <= self.windows@.len(),
                match found {
                    Some(f) => window_from(self.windows@, window_id, 0) == Some(f as int) && f
                        < self.windows@.len(),
                    None => window_from(self.windows@, window_id, i as int) == window_from(
                        self.windows@,
                        window_id,
                        0,
                    ),
                },
            decreases self.windows@.len() - i + if found is None {
                1int
            } else {
                0
            },
        {
            if self.windows[i].id == window_id {
                found = Some(i);
            } else {
                i += 1;
            }
        }
        match (found, node_idx_for_id(&self.nodes, output_id)) {
            (Some(w), Some(n)) => {
                let window: Window = self.windows[w];
                let (x, y): (i32, i32) = self.nodes[n].pos;
                self.windows.set(w, Window { output: output_id, parked: false, x, y, ..window });
                true
            },
            _ => false,
        }
    }

    /// Ask a display's capture for a keyframe.
    pub fn request_idr(&mut self, display_id: u32)
        ensures
            one_capture(
                *old(self),
                *final(self),
                display_id,
                |c: WlCapture| c.asked_idr(),
            ),
            same_but_nodes(*final(self), *old(self)),
            final(self).settings == old(self).settings,
            final(self).render_cursor_on_framebuffer == old(self).render_cursor_on_framebuffer,
    {
        let ghost nodes = self.nodes@;
        if let Some(i) = node_idx_for_id(&self.nodes, display_id) {
            let node = &mut self.nodes[i];
            if let Some(cap) = &mut node.capture {
                cap.request_idr();
            }
            assert(self.nodes@ =~= nodes.update(i as int, self.nodes@[i as int]));
        }
    }

    /// Apply a live rate change to a display's capture. Returns the session whose own rate has to
    /// be reconfigured, if any; the encode thread finds the change in its controls.
    pub fn update_rate(
        &mut self,
        display_id: u32,
        bitrate_kbps: Option<i32>,
        vbv_milli: Option<i32>,
        fps_milli: Option<u32>,
    ) -> (session: Option<GpuEncoder>)
        ensures
            one_capture(
                *old(self),
                *final(self),
                display_id,
                |c: WlCapture| with_rate(c, bitrate_kbps, vbv_milli, fps_milli),
            ),
            session == match wayland::index_of(old(self).nodes@, display_id) {
                Some(i) => session_of(old(self).nodes@[i]),
                None => None,
            },
            final(self).settings == match wayland::index_of(old(self).nodes@, display_id) {
                Some(i) => if display_id == 0 {
                    mirrored(
                        old(self).settings,
                        new_rate(old(self).nodes@[i], bitrate_kbps, vbv_milli, fps_milli),
                    )
                } else {
                    old(self).settings
                },
                None => old(self).settings,
            },
            same_but_nodes(*final(self), *old(self)),
            final(self).render_cursor_on_framebuffer == old(self).render_cursor_on_framebuffer,
    {
        let ghost nodes = self.nodes@;
        let mut session: Option<GpuEncoder> = None;
        if let Some(i) = node_idx_for_id(&self.nodes, display_id) {
            let (s, rate) = change_node_rate(
                &mut self.nodes[i],
                bitrate_kbps,
                vbv_milli,
                fps_milli,
            );
            session = s;
            assert(self.nodes@ =~= nodes.update(i as int, self.nodes@[i as int]));
            if display_id == 0 {
                mirror_rate(&mut self.settings, rate);
            }
        }
        session
    }

    /// A zero-copy session could not be re-opened at the new rate: the next tick's encode fails,
    /// and that failure runs the recovery at once.
    pub fn rate_failed(&mut self, display_id: u32)
        ensures
            one_capture(
                *old(self),
                *final(self),
                display_id,
                |c: WlCapture|
                    WlCapture {
                        hw_error_streak: (HW_ERROR_RECOVERY_THRESHOLD - 1) as u32,
                        ..c
                    },
            ),
            same_but_nodes(*final(self), *old(self)),
            final(self).settings == old(self).settings,
            final(self).render_cursor_on_framebuffer == old(self).render_cursor_on_framebuffer,
    {
        let ghost nodes = self.nodes@;
        if let Some(i) = node_idx_for_id(&self.nodes, display_id) {
            let node = &mut self.nodes[i];
            if let Some(cap) = &mut node.capture {
                cap.hw_error_streak = HW_ERROR_RECOVERY_THRESHOLD - 1;
            }
            assert(self.nodes@ =~= nodes.update(i as int, self.nodes@[i as int]));
        }
    }

    /// Apply live tunables to a display's capture, and to the primary's settings where it is that
    /// one. The cursor is painted into every output or none.
    pub fn update_tunables(&mut self, display_id: u32, t: LiveTunables)
        ensures
            one_capture(
                *old(self),
                *final(self),
                display_id,
                |c: WlCapture| with_tunables(c, t),
            ),
            final(self).settings == if display_id == 0 {
                t.applied(old(self).settings)
            } else {
                old(self).settings
            },
            final(self).render_cursor_on_framebuffer == t.capture_cursor,
            same_but_nodes(*final(self), *old(self)),
    {
        self.render_cursor_on_framebuffer = t.capture_cursor;
        if display_id == 0 {
            t.apply_to(&mut self.settings);
        }
        let ghost nodes = self.nodes@;
        if let Some(i) = node_idx_for_id(&self.nodes, display_id) {
            let node = &mut self.nodes[i];
            if let Some(cap) = &mut node.capture {
                change_tunables(cap, t);
            }
            assert(self.nodes@ =~= nodes.update(i as int, self.nodes@[i as int]));
        }
    }

    /// The burned-in cursor changed size: every capture is drawn anew, or a static screen would
    /// keep the old sprite. A size that is not positive is refused.
    pub fn set_cursor_size(&mut self, size: i32) -> (ok: bool)
        ensures
            ok == (size > 0),
            !ok ==> *final(self) == *old(self),
            ok ==> final(self).nodes@.len() == old(self).nodes@.len() && forall|i: int|
                0 <= i < old(self).nodes@.len() ==> #[trigger] final(self).nodes@[i] == recaptured(
                    old(self).nodes@[i],
                    match old(self).nodes@[i].capture {
                        Some(c) => Some(WlCapture { needs_full_render: true, ..c }),
                        None => None,
                    },
                ),
            same_but_nodes(*final(self), *old(self)),
            final(self).settings == old(self).settings,
            final(self).render_cursor_on_framebuffer == old(self).render_cursor_on_framebuffer,
    {
        if size <= 0 {
            return false;
        }
        let ghost before = *self;
        let mut i: usize = 0;
        while i < self.nodes.len()
            invariant
                i <= self.nodes@.len(),
                self.nodes@.len() == before.nodes@.len(),
                forall|j: int| i <= j < before.nodes@.len() ==> self.nodes@[j] == before.nodes@[j],
                forall|j: int|
                    0 <= j < i ==> #[trigger] self.nodes@[j] == recaptured(
                        before.nodes@[j],
                        match before.nodes@[j].capture {
                            Some(c) => Some(WlCapture { needs_full_render: true, ..c }),
                            None => None,
                        },
                    ),
                same_but_nodes(*self, before),
                self.settings == before.settings,
                self.render_cursor_on_framebuffer == before.render_cursor_on_framebuffer,
            decreases self.nodes@.len() - i,
        {
            let ghost was = self.nodes@;
            let node = &mut self.nodes[i];
            if let Some(cap) = &mut node.capture {
                cap.needs_full_render = true;
            }
            assert(self.nodes@ =~= was.update(i as int, self.nodes@[i as int]));
            i += 1;
        }
        true
    }

    /// Whether a screenshot of a display is taken at its next tick; an unknown display is told.
    pub fn accept_screenshot(&self, display_id: u32) -> (r: Result<(), String>)
        ensures
            r is Ok <==> wayland::index_of(self.nodes@, display_id) is Some,
            r matches Err(e) ==> e@ == "Unknown display: "@ + text::decimal(display_id as nat),
    {
        if node_idx_for_id(&self.nodes, display_id).is_some() {
            Ok(())
        } else {
            let mut e = "Unknown display: ".to_owned();
            append_unsigned(&mut e, display_id as u64);
            Err(e)
        }
    }

    /// Read a display's geometry: parked behind a layout request that the host has not answered,
    /// which is what makes the read a barrier; else answered at once.
    pub fn read_geometry(&mut self, display_id: u32, waiter: u64) -> (r: Option<(i32, i32, u32)>)
        ensures
            match lifecycle::request_from(old(self).host_layout_pending@, display_id, 0) {
                Some(i) => {
                    let before = old(self).host_layout_pending@[i];
                    let after = final(self).host_layout_pending@[i];
                    &&& r is None
                    &&& final(self).host_layout_pending@ == old(
                        self,
                    ).host_layout_pending@.update(i, after)
                    &&& after.waiters@ == before.waiters@.push(waiter)
                    &&& after.display_id == before.display_id
                    &&& after.epoch == before.epoch
                    &&& after.want == before.want
                },
                None => {
                    &&& r == Some(lifecycle::geometry_of(old(self).nodes@, display_id))
                    &&& final(self).host_layout_pending@ == old(self).host_layout_pending@
                },
            },
            final(self).nodes == old(self).nodes,
            final(self).windows == old(self).windows,
            final(self).pending_windows == old(self).pending_windows,
            final(self).book == old(self).book,
            final(self).same_but_captures(*old(self)),
    {
        let ghost pending = self.host_layout_pending@;
        let mut i: usize = 0;
        while i < self.host_layout_pending.len()
            invariant
                i <= self.host_layout_pending@.len(),
                self.host_layout_pending@ == pending,
                self.host_layout_pending == old(self).host_layout_pending,
                self.nodes == old(self).nodes,
                self.windows == old(self).windows,
                self.pending_windows == old(self).pending_windows,
                self.book == old(self).book,
                self.same_but_captures(*old(self)),
                lifecycle::request_from(pending, display_id, i as int) == lifecycle::request_from(
                    pending,
                    display_id,
                    0,
                ),
            decreases self.host_layout_pending@.len() - i,
        {
            if self.host_layout_pending[i].display_id == display_id {
                let request = &mut self.host_layout_pending[i];
                request.waiters.push(waiter);
                assert(self.host_layout_pending@ =~= pending.update(
                    i as int,
                    self.host_layout_pending@[i as int],
                ));
                return None;
            }
            i += 1;
        }
        Some(self.realized_geometry(display_id))
    }

    /// Nothing is rendered this tick: no output is captured, and neither a screenshot nor a copied
    /// frame is awaited.
    pub fn is_idle(&self, screenshot: bool, copy_frame: bool) -> (b: bool)
        ensures
            b == (!screenshot && !copy_frame && forall|i: int|
                0 <= i < self.nodes@.len() ==> (#[trigger] self.nodes@[i]).capture is None),
    {
        let mut i: usize = 0;
        while i < self.nodes.len()
            invariant
                i <= self.nodes@.len(),
                forall|j: int| 0 <= j < i ==> (#[trigger] self.nodes@[j]).capture is None,
            decreases self.nodes@.len() - i,
        {
            if self.nodes[i].capture.is_some() {
                return false;
            }
            i += 1;
        }
        !screenshot && !copy_frame
    }

    /// The fastest capture's frame rate among the first `n` outputs.
    pub open spec fn fastest(nodes: Seq<OutputNode>, n: int) -> u32
        decreases n,
    {
        if n <= 0 {
            0
        } else {
            let rest = Compositor::fastest(nodes, n - 1);
            match nodes[n - 1].capture {
                Some(c) => if c.settings.target_fps_milli > rest {
                    c.settings.target_fps_milli
                } else {
                    rest
                },
                None => rest,
            }
        }
    }

    /// The frame rate that the shared timer paces for: the fastest capture's, else the primary's
    /// settings, within bounds.
    pub open spec fn paced_fps(&self) -> u32 {
        let fastest = Compositor::fastest(self.nodes@, self.nodes@.len() as int);
        let raw = if fastest > 0 {
            fastest
        } else {
            self.settings.target_fps_milli
        };
        if raw == 0 {
            DEFAULT_FPS_MILLI
        } else if raw > MAX_FPS_MILLI {
            MAX_FPS_MILLI
        } else {
            raw
        }
    }

    fn pacing_rate(&self) -> (fps: u32)
        ensures
            fps == self.paced_fps(),
    {
        let mut fastest: u32 = 0;
        let mut i: usize = 0;
        while i < self.nodes.len()
            invariant
                i <= self.nodes@.len(),
                fastest == Compositor::fastest(self.nodes@, i as int),
            decreases self.nodes@.len() - i,
        {
            if let Some(c) = &self.nodes[i].capture {
                if c.settings.target_fps_milli > fastest {
                    fastest = c.settings.target_fps_milli;
                }
            }
            i += 1;
        }
        let raw: u32 = if fastest > 0 {
            fastest
        } else {
            self.settings.target_fps_milli
        };
        if raw == 0 {
            DEFAULT_FPS_MILLI
        } else if raw > MAX_FPS_MILLI {
            MAX_FPS_MILLI
        } else {
            raw
        }
    }

    /// The time of a frame, to the nearest nanosecond.
    pub open spec fn frame_ns(fps_milli: u32) -> int {
        (2_000_000_000_000 + fps_milli) / (2 * fps_milli as int)
    }

    /// How long the timer sleeps after a tick: a moment where an encoder was behind, else what is
    /// left of the frame's time, and a millisecond at least.
    pub fn tick_wait(&self, any_pool_busy: bool, work: Duration) -> (wait: Duration)
        ensures
            wait.nanos == if any_pool_busy {
                SHORTEST_WAIT_NS as int
            } else {
                let left = Compositor::frame_ns(self.paced_fps()) - work.nanos;
                if left < SHORTEST_WAIT_NS {
                    SHORTEST_WAIT_NS as int
                } else {
                    left
                }
            },
    {
        if any_pool_busy {
            return Duration { nanos: SHORTEST_WAIT_NS };
        }
        let fps: u64 = self.pacing_rate() as u64;
        let target: u64 = (2_000_000_000_000 + fps) / (2 * fps);
        let left: u64 = if target > work.nanos {
            target - work.nanos
        } else {
            0
        };
        Duration {
            nanos: if left < SHORTEST_WAIT_NS {
                SHORTEST_WAIT_NS
            } else {
                left
            },
        }
    }
}

fn change_rate(
    cap: &mut WlCapture,
    bitrate_kbps: Option<i32>,
    vbv_milli: Option<i32>,
    fps_milli: Option<u32>,
)
    ensures
        *final(cap) == with_rate(*old(cap), bitrate_kbps, vbv_milli, fps_milli),
{
    set_rate(&mut cap.settings, bitrate_kbps, vbv_milli, fps_milli);
    cap.controls.seed_rate(&cap.settings);
    cap.controls.rate_dirty = true;
}

/// The session that an output's capture encodes with itself.
pub open spec fn session_of(n: OutputNode) -> Option<GpuEncoder> {
    match n.capture {
        Some(c) => c.session,
        None => None,
    }
}

/// The bitrate, buffer and frame rate that an output's capture has after a rate change.
pub open spec fn new_rate(
    n: OutputNode,
    bitrate_kbps: Option<i32>,
    vbv_milli: Option<i32>,
    fps_milli: Option<u32>,
) -> Option<(i32, i32, u32)> {
    match n.capture {
        Some(c) => {
            let s = rerated(c.settings, bitrate_kbps, vbv_milli, fps_milli);
            Some((s.video_bitrate_kbps, s.video_vbv_multiplier_milli, s.target_fps_milli))
        },
        None => None,
    }
}

/// Settings that follow a capture's rate.
pub open spec fn mirrored(
    s: RustCaptureSettings,
    rate: Option<(i32, i32, u32)>,
) -> RustCaptureSettings {
    match rate {
        Some((b, v, f)) => RustCaptureSettings {
            video_bitrate_kbps: b,
            video_vbv_multiplier_milli: v,
            target_fps_milli: f,
            ..s
        },
        None => s,
    }
}

fn mirror_rate(s: &mut RustCaptureSettings, rate: Option<(i32, i32, u32)>)
    ensures
        *final(s) == mirrored(*old(s), rate),
{
    if let Some((b, v, f)) = rate {
        s.video_bitrate_kbps = b;
        s.video_vbv_multiplier_milli = v;
        s.target_fps_milli = f;
    }
}

fn change_node_rate(
    node: &mut OutputNode,
    bitrate_kbps: Option<i32>,
    vbv_milli: Option<i32>,
    fps_milli: Option<u32>,
) -> (r: (Option<GpuEncoder>, Option<(i32, i32, u32)>))
    ensures
        *final(node) == recaptured(
            *old(node),
            match old(node).capture {
                Some(c) => Some(with_rate(c, bitrate_kbps, vbv_milli, fps_milli)),
                None => None,
            },
        ),
        r.0 == session_of(*old(node)),
        r.1 == new_rate(*old(node), bitrate_kbps, vbv_milli, fps_milli),
{
    if let Some(cap) = &mut node.capture {
        change_rate(cap, bitrate_kbps, vbv_milli, fps_milli);
        (
            cap.session,
            Some(
                (
                    cap.settings.video_bitrate_kbps,
                    cap.settings.video_vbv_multiplier_milli,
                    cap.settings.target_fps_milli,
                ),
            ),
        )
    } else {
        (None, None)
    }
}

fn change_tunables(cap: &mut WlCapture, t: LiveTunables)
    ensures
        *final(cap) == with_tunables(*old(cap), t),
{
    t.apply_to(&mut cap.settings);
    cap.controls.tunables = Some(t);
    cap.controls.tunables_dirty = true;
}

/// A rate change reaches the encode thread whole: taking in the controls gives the capture's own
/// new settings their rate, and the frame rate at least one a second.
pub proof fn rate_changes_reach_the_encoder(
    cap: WlCapture,
    bitrate_kbps: Option<i32>,
    vbv_milli: Option<i32>,
    fps_milli: Option<u32>,
    own: RustCaptureSettings,
)
    ensures
        ({
            let changed = with_rate(cap, bitrate_kbps, vbv_milli, fps_milli);
            let taken = changed.controls.rated(own);
            &&& taken.video_bitrate_kbps == changed.settings.video_bitrate_kbps
            &&& taken.video_vbv_multiplier_milli == changed.settings.video_vbv_multiplier_milli
            &&& taken.target_fps_milli == encoders::budget_fps_milli(
                changed.settings.target_fps_milli,
            )
        }),
{
}

/// Live tunables reach the encode thread whole: taking in the controls gives its settings the
/// tunables that the capture's own have.
pub proof fn tunables_reach_the_encoder(cap: WlCapture, t: LiveTunables, own: RustCaptureSettings)
    ensures
        LiveTunables::of(with_tunables(cap, t).controls.tuned(own)) == t,
        LiveTunables::of(with_tunables(cap, t).settings) == t,
{
}

/// The time passed since an event, if there was one.
pub open spec fn since(event: Option<Instant>, now: Instant) -> Option<int> {
    match event {
        Some(t) => Some(clock::since(now.nanos as int, t.nanos as int)),
        None => None,
    }
}

fn passed_since(event: Option<Instant>, now: Instant) -> (r: Option<u64>)
    ensures
        match r {
            Some(n) => since(event, now) == Some(n as int),
            None => since(event, now) is None,
        },
{
    match event {
        Some(t) => Some(now.saturating_duration_since(t).nanos),
        None => None,
    }
}

/// Whether frame callbacks go out as soon as a command came: a fresh input must not wait out a long
/// idle deadline that is armed already, but callbacks go out at frame pace at most.
pub fn services_on_wake(
    idle_long: bool,
    last_input: Option<Instant>,
    last_service: Option<Instant>,
    now: Instant,
) -> (b: bool)
    ensures
        b == (idle_long && since(last_input, now) is Some && since(last_input, now)->0
            < INPUT_ECHO_NS && (since(last_service, now) is None || since(last_service, now)->0
            >= PROMPT_INTERVAL_NS)),
{
    let fresh = match passed_since(last_input, now) {
        Some(n) => n < INPUT_ECHO_NS,
        None => false,
    };
    let paced = match passed_since(last_service, now) {
        Some(n) => n >= PROMPT_INTERVAL_NS,
        None => true,
    };
    idle_long && fresh && paced
}

/// How long the timer sleeps while nothing is captured, and whether that is the long deadline: a
/// client that copies frames and one that was just typed into are served at frame pace.
pub fn idle_wait(copy_sessions: bool, last_input: Option<Instant>, now: Instant) -> (r: (
    Duration,
    bool,
))
    ensures
        r.1 == !(copy_sessions || (since(last_input, now) is Some && since(last_input, now)->0
            < INPUT_WINDOW_NS)),
        r.0.nanos == if r.1 {
            IDLE_FRAME_INTERVAL_NS
        } else {
            PROMPT_INTERVAL_NS
        },
{
    let post_input = match passed_since(last_input, now) {
        Some(n) => n < INPUT_WINDOW_NS,
        None => false,
    };
    if copy_sessions || post_input {
        (Duration { nanos: PROMPT_INTERVAL_NS }, false)
    } else {
        (Duration { nanos: IDLE_FRAME_INTERVAL_NS }, true)
    }
}

/// The kinds of text that plain text is offered as.
pub open spec fn text_mimes() -> Seq<Seq<char>> {
    seq![
        "text/plain;charset=utf-8"@,
        "UTF8_STRING"@,
        "text/plain"@,
        "STRING"@,
        "TEXT"@,
    ]
}

/// The kinds that a clipboard offer is served as: plain text as every kind that clients ask for,
/// anything else as itself.
pub fn clipboard_mimes(mime: String) -> (mimes: Vec<String>)
    ensures
        mimes@.map_values(|m: String| m@) == if text::opens_with(mime@, "text/plain"@) {
            text_mimes()
        } else {
            seq![mime@]
        },
{
    let m = chars_of(mime.as_str());
    let key = chars_of("text/plain");
    let mut mimes: Vec<String> = Vec::new();
    if starts_with(m.as_slice(), key.as_slice()) {
        mimes.push("text/plain;charset=utf-8".to_owned());
        mimes.push("UTF8_STRING".to_owned());
        mimes.push("text/plain".to_owned());
        mimes.push("STRING".to_owned());
        mimes.push("TEXT".to_owned());
        assert(mimes@.map_values(|m: String| m@) =~= text_mimes());
    } else {
        mimes.push(mime);
        assert(mimes@.map_values(|m: String| m@) =~= seq![mime@]);
    }
    mimes
}

/// The clipboard as the compositor knows it.
pub struct Clipboard {
    /// What a client offers; nothing while the compositor owns the selection.
    pub current: Option<String>,
    /// What is to be read next.
    pub pending_read: Option<String>,
}

impl Clipboard {
    /// A clipboard callback was armed: a copy made before it is read again, so that it is
    /// delivered rather than lost.
    pub fn callback_armed(&mut self)
        ensures
            final(self).current == old(self).current,
            final(self).pending_read == if old(self).current is Some {
                old(self).current
            } else {
                old(self).pending_read
            },
    {
        if let Some(mime) = &self.current {
            self.pending_read = Some(mime.clone());
        }
    }

    /// The compositor offers a selection of its own, served as the kinds returned: no client's
    /// holds it any more.
    pub fn offer(&mut self, mime: String) -> (mimes: Vec<String>)
        ensures
            final(self).current is None,
            final(self).pending_read == old(self).pending_read,
            mimes@.map_values(|m: String| m@) == if text::opens_with(mime@, "text/plain"@) {
                text_mimes()
            } else {
                seq![mime@]
            },
    {
        self.current = None;
        clipboard_mimes(mime)
    }
}

/// A control message to the compositor thread. Who waits for an answer, and who is called back, is
/// kept beside it. Coordinates and scrolls come in thousandths, scales in millionths.
#[derive(Debug)]
pub enum ThreadCommand {
    /// Start the capture of an output, or reconfigure it in place.
    StartCapture { display_id: u32, settings: RustCaptureSettings },
    StopCapture { display_id: u32 },
    CreateOutput { id: u32, width: i32, height: i32, x: i32, y: i32, scale_micro: u32 },
    DestroyOutput { id: u32 },
    RepositionOutput { id: u32, x: i32, y: i32 },
    ListOutputs,
    OutputCapacity,
    MoveWindowToOutput { window_id: u32, output_id: u32 },
    ListWindows,
    SetCursorCallback,
    SetClipboardCallback,
    SetClipboard { mime: String, data: Vec<u8> },
    KeyboardKey { scancode: u32, state: u32 },
    /// A whole run of key events, in order.
    KeyboardKeys { events: Vec<(u32, u32)> },
    SetKeymapString(String),
    SetXkbLayout {
        rules: String,
        model: String,
        layout: String,
        variant: String,
        options: String,
    },
    BindKeysyms { keysyms: Vec<u32> },
    SetKeymapOverlay { binds: Vec<(u32, u32)> },
    GetKeyboardState,
    GetXkbKeymap,
    /// Answered once everything asked before it is done.
    Barrier,
    PointerMotion { x_milli: i64, y_milli: i64 },
    PointerRelativeMotion { dx_milli: i64, dy_milli: i64 },
    PointerButton { btn: u32, state: u32 },
    PointerAxis { x_milli: i64, y_milli: i64 },
    UpdateCursorConfig { render_on_framebuffer: bool },
    SetCursorSize { size: i32 },
    RequestIdr { display_id: u32 },
    UpdateRate {
        display_id: u32,
        bitrate_kbps: Option<i32>,
        vbv_milli: Option<i32>,
        fps_milli: Option<u32>,
    },
    UpdateTunables { display_id: u32, tunables: LiveTunables },
    CuScreenshot { display_id: u32 },
    CuCursorPosition,
    CuGetInfo { display_id: u32 },
}

impl ThreadCommand {
    /// The message is an input: a key, a motion, a button or a scroll.
    pub open spec fn input(self) -> bool {
        ||| self is KeyboardKey
        ||| self is KeyboardKeys
        ||| self is PointerMotion
        ||| self is PointerRelativeMotion
        ||| self is PointerButton
        ||| self is PointerAxis
    }

    /// Whether the message is an input.
    pub fn is_input(&self) -> (b: bool)
        ensures
            b == self.input(),
    {
        match self {
            ThreadCommand::KeyboardKey { .. } => true,
            ThreadCommand::KeyboardKeys { .. } => true,
            ThreadCommand::PointerMotion { .. } => true,
            ThreadCommand::PointerRelativeMotion { .. } => true,
            ThreadCommand::PointerButton { .. } => true,
            ThreadCommand::PointerAxis { .. } => true,
            _ => false,
        }
    }
}

/// When the last input came, after a batch of messages.
pub fn last_input_after(commands: &[ThreadCommand], last: Option<Instant>, now: Instant) -> (r: Option<
    Instant,
>)
    ensures
        r == if exists|i: int| 0 <= i < commands@.len() && (#[trigger] commands@[i]).input() {
            Some(now)
        } else {
            last
        },
{
    let mut i: usize = 0;
    while i < commands.len()
        invariant
            i <= commands@.len(),
            forall|j: int| 0 <= j < i ==> !(#[trigger] commands@[j]).input(),
        decreases commands@.len() - i,
    {
        if commands[i].is_input() {
            return Some(now);
        }
        i += 1;
    }
    last
}

/// Take the finished threads out of those that wait to be joined: only these can be joined without
/// waiting.
pub fn reap(waiting: &mut Vec<u64>, finished: &HashSet<u64>) -> (done: Vec<u64>)
    ensures
        forall|i: int| 0 <= i < done@.len() ==> finished@.contains(#[trigger] done@[i]),
        forall|i: int|
            0 <= i < final(waiting)@.len() ==> !finished@.contains(
                #[trigger] final(waiting)@[i],
            ),
        final(waiting)@.to_multiset().add(done@.to_multiset()) == old(waiting)@.to_multiset(),
{
    broadcast use vstd::std_specs::hash::group_hash_axioms;

    let ghost all = waiting@.to_multiset();
    let mut done: Vec<u64> = Vec::new();
    let mut i: usize = 0;
    assert(waiting@.to_multiset().add(done@.to_multiset()) =~= all) by {
        done@.to_multiset_ensures();
    }
    while i < waiting.len()
        invariant
            i <= waiting@.len(),
            forall|j: int| 0 <= j < done@.len() ==> finished@.contains(#[trigger] done@[j]),
            forall|j: int| 0 <= j < i ==> !finished@.contains(#[trigger] waiting@[j]),
            waiting@.to_multiset().add(done@.to_multiset()) == all,
        decreases waiting@.len() - i,
    {
        if finished.contains(&waiting[i]) {
            let ghost was = waiting@;
            let ghost before = done@;
            let t: u64 = waiting.swap_remove(i);
            done.push(t);
            proof {
                let last = was.last();
                vstd::seq_lib::to_multiset_update(was, i as int, last);
                vstd::seq_lib::to_multiset_build(waiting@, last);
                vstd::seq_lib::to_multiset_build(before, t);
                vstd::seq_lib::to_multiset_contains(was, t);
                assert(waiting@.push(last) =~= was.update(i as int, last));
                assert(was.contains(t));
                let left = waiting@.to_multiset();
                let both = was.to_multiset();
                assert(left.insert(last) == both.insert(last).remove(t));
                assert forall|x: u64| left.add(done@.to_multiset()).count(x) == #[trigger] both.add(
                    before.to_multiset(),
                ).count(x) by {
                    assert(left.insert(last).count(x) == left.count(x) + if x == last {
                        1int
                    } else {
                        0
                    });
                    assert(both.insert(last).remove(t).count(x) == both.count(x) + (if x == last {
                        1int
                    } else {
                        0
                    }) - if x == t {
                        1int
                    } else {
                        0
                    });
                }
                assert(left.add(done@.to_multiset()) =~= both.add(before.to_multiset()));
            }
        } else {
            i += 1;
        }
    }
    done
}

/// The modifiers that are down or locked.
#[derive(Clone, Copy, Debug, PartialEq, Eq, Structural)]
pub struct Modifiers {
    pub ctrl: bool,
    pub shift: bool,
    pub alt: bool,
    pub logo: bool,
    pub caps_lock: bool,
    pub num_lock: bool,
    pub iso_level3_shift: bool,
    pub iso_level5_shift: bool,
}

/// What a modifier adds to the mask.
pub open spec fn weight(on: bool, value: int) -> int {
    if on {
        value
    } else {
        0
    }
}

fn bit(on: bool, value: u32) -> (r: u32)
    ensures
        r == weight(on, value as int),
{
    if on {
        value
    } else {
        0
    }
}

/// The modifiers as a mask: 1 ctrl, 2 shift, 4 alt, 8 logo, 16 caps, 32 num, 64 level three, 128
/// level five.
pub fn modifier_mask(m: Modifiers) -> (mask: u32)
    ensures
        mask == weight(m.ctrl, 1) + weight(m.shift, 2) + weight(m.alt, 4) + weight(m.logo, 8)
            + weight(m.caps_lock, 16) + weight(m.num_lock, 32) + weight(m.iso_level3_shift, 64)
            + weight(m.iso_level5_shift, 128),
{
    bit(m.ctrl, 1) + bit(m.shift, 2) + bit(m.alt, 4) + bit(m.logo, 8) + bit(m.caps_lock, 16) + bit(
        m.num_lock,
        32,
    ) + bit(m.iso_level3_shift, 64) + bit(m.iso_level5_shift, 128)
}

/// Every mask stands for one set of modifiers.
pub proof fn masks_are_told_apart(a: Modifiers, b: Modifiers)
    requires
        weight(a.ctrl, 1) + weight(a.shift, 2) + weight(a.alt, 4) + weight(a.logo, 8) + weight(
            a.caps_lock,
            16,
        ) + weight(a.num_lock, 32) + weight(a.iso_level3_shift, 64) + weight(
            a.iso_level5_shift,
            128,
        ) == weight(b.ctrl, 1) + weight(b.shift, 2) + weight(b.alt, 4) + weight(b.logo, 8) + weight(
            b.caps_lock,
            16,
        ) + weight(b.num_lock, 32) + weight(b.iso_level3_shift, 64) + weight(
            b.iso_level5_shift,
            128,
        ),
    ensures
        a == b,
{
}

} // verus!
