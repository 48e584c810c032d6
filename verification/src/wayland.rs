//! What the compositor keeps of its outputs, their captures and the windows on them.

use vstd::prelude::*;
use crate::clock::Instant;
use crate::encode_loop::{GpuEncoder, WlEncodeControls};
use crate::encoders::{EncodedStripe, StripeState};
use crate::pipeline;
use crate::recording_sink::RecordingSink;
use crate::session::CaptureBook;
use crate::settings::RustCaptureSettings;

verus! {

/// An output's mode: its size in pixels and its refresh rate in thousandths.
#[derive(Clone, Copy, Debug, PartialEq, Eq, Structural)]
pub struct Mode {
    pub w: i32,
    pub h: i32,
    pub refresh: i32,
}

/// A window that a client mapped.
#[derive(Clone, Copy, Debug, PartialEq, Eq, Structural)]
pub struct Window {
    /// Windows are numbered in the order in which they came.
    pub id: u32,
    /// The output it is tagged for.
    pub output: u32,
    /// It is mapped clear of every output and holds its size until one exists for it.
    pub parked: bool,
    /// Where it is mapped.
    pub x: i32,
    pub y: i32,
}

/// One display's capture.
#[derive(Debug)]
pub struct WlCapture {
    pub settings: RustCaptureSettings,
    /// The zero-copy session.
    pub session: Option<GpuEncoder>,
    pub hw_state: StripeState,
    pub recording_sink: Option<RecordingSink>,
    /// Someone takes what is delivered.
    pub delivers: bool,
    /// An encoded frame that the delivery slot had no room for.
    pub pending_hw_delivery: Option<Vec<EncodedStripe>>,
    /// Content changed while a frame was parked.
    pub pending_hw_damage: bool,
    /// The encode thread and its pool are up.
    pub readback: bool,
    pub controls: WlEncodeControls,
    /// The render at which each pooled buffer was last drawn; zero for never.
    pub pool_last_render: Vec<u64>,
    pub render_seq: u64,
    /// The content each pooled buffer holds.
    pub pool_content_gen: Vec<u64>,
    pub content_gen: u64,
    pub frame_counter: u16,
    pub pending_force_idr: bool,
    pub needs_full_render: bool,
    pub last_tick: Option<Instant>,
    pub hw_error_streak: u32,
    pub hw_rebuilt: bool,
}

impl WlCapture {
    /// The capture that a start leaves, before its encode path is brought up.
    pub fn new(
        settings: RustCaptureSettings,
        session: Option<GpuEncoder>,
        recording_sink: Option<RecordingSink>,
    ) -> (c: WlCapture)
        ensures
            c.settings == settings,
            c.session == session,
            c.hw_state == pipeline::fresh_stripe(),
            c.recording_sink == recording_sink,
            c.delivers,
            c.pending_hw_delivery is None,
            !c.pending_hw_damage,
            !c.readback,
            c.controls == (WlEncodeControls {
                rate_dirty: false,
                bitrate_kbps: 0,
                vbv_mult_milli: 0,
                fps_milli: 0,
                force_idr: false,
                tunables_dirty: false,
                tunables: None,
            }),
            c.pool_last_render@.len() == 0,
            c.render_seq == 0,
            c.pool_content_gen@.len() == 0,
            c.content_gen == 0,
            c.frame_counter == 0,
            !c.pending_force_idr,
            c.needs_full_render,
            c.last_tick is None,
            c.hw_error_streak == 0,
            !c.hw_rebuilt,
    {
        WlCapture {
            settings,
            session,
            hw_state: StripeState::default(),
            recording_sink,
            delivers: true,
            pending_hw_delivery: None,
            pending_hw_damage: false,
            readback: false,
            controls: WlEncodeControls::new(),
            pool_last_render: Vec::new(),
            render_seq: 0,
            pool_content_gen: Vec::new(),
            content_gen: 0,
            frame_counter: 0,
            pending_force_idr: false,
            needs_full_render: true,
            last_tick: None,
            hw_error_streak: 0,
            hw_rebuilt: false,
        }
    }

    /// Ask for a keyframe: of the encode thread where one is up, else of the zero-copy session.
    pub fn request_idr(&mut self)
        ensures
            *final(self) == old(self).asked_idr(),
    {
        if self.readback {
            self.controls.force_idr = true;
        } else {
            self.pending_force_idr = true;
        }
    }

    /// The capture once a keyframe was asked for.
    pub open spec fn asked_idr(self) -> WlCapture {
        if self.readback {
            WlCapture {
                controls: WlEncodeControls { force_idr: true, ..self.controls },
                ..self
            }
        } else {
            WlCapture { pending_force_idr: true, ..self }
        }
    }
}

/// One output: its place in the layout, its mode, and at most one capture.
#[derive(Debug)]
pub struct OutputNode {
    pub id: u32,
    pub name: String,
    pub pos: (i32, i32),
    pub mode: Option<Mode>,
    /// Millionths.
    pub scale_micro: u32,
    pub capture: Option<WlCapture>,
    pub frame_buffer: Vec<u8>,
    pub frame_seq: u64,
    /// Something was drawn since the target was allocated.
    pub target_seeded: bool,
    /// Until then frames are held while no client has answered the new size.
    pub content_hold_until: Option<Instant>,
}

/// A layout request that the host has not answered, and the readers that wait for it.
#[derive(Debug)]
pub struct PendingHostLayout {
    pub display_id: u32,
    pub epoch: u64,
    pub want: (i32, i32),
    pub waiters: Vec<u64>,
}

/// The compositor's own state.
pub struct Compositor {
    pub nodes: Vec<OutputNode>,
    pub windows: Vec<Window>,
    /// Windows that are not mapped yet.
    pub pending_windows: Vec<Window>,
    pub host_layout_pending: Vec<PendingHostLayout>,
    pub book: CaptureBook,
    /// The primary display's settings.
    pub settings: RustCaptureSettings,
    /// The renderer runs on the GPU.
    pub use_gpu: bool,
    pub render_node_path: String,
    pub auto_gpu_selected: bool,
    /// The outputs of the host compositor that is captured; `None` while own clients are
    /// composited.
    pub host_outputs: Option<usize>,
    pub render_cursor_on_framebuffer: bool,
}

/// The first node from the `i`th on with this id.
pub open spec fn index_from(nodes: Seq<OutputNode>, id: u32, i: int) -> Option<int>
    decreases nodes.len() - i,
{
    if i >= nodes.len() {
        None
    } else if nodes[i].id == id {
        Some(i)
    } else {
        index_from(nodes, id, i + 1)
    }
}

/// The node with this id.
pub open spec fn index_of(nodes: Seq<OutputNode>, id: u32) -> Option<int> {
    index_from(nodes, id, 0)
}

/// A display's output is captured.
pub open spec fn captured(nodes: Seq<OutputNode>, id: u32) -> bool {
    exists|i: int| 0 <= i < nodes.len() && (#[trigger] nodes[i]).id == id && nodes[i].capture is Some
}

/// No two nodes have the same id.
pub open spec fn distinct_ids(nodes: Seq<OutputNode>) -> bool {
    forall|i: int, j: int|
        0 <= i < j < nodes.len() ==> (#[trigger] nodes[i]).id != (#[trigger] nodes[j]).id
}

/// A node found has its id and is the first that does; where none is found, none has it.
pub proof fn index_finds(nodes: Seq<OutputNode>, id: u32, from: int)
    requires
        0 <= from <= nodes.len(),
    ensures
        match index_from(nodes, id, from) {
            Some(i) => from <= i < nodes.len() && nodes[i].id == id && forall|j: int|
                from <= j < i ==> (#[trigger] nodes[j]).id != id,
            None => forall|j: int| from <= j < nodes.len() ==> (#[trigger] nodes[j]).id != id,
        },
    decreases nodes.len() - from,
{
    if from < nodes.len() && nodes[from].id != id {
        index_finds(nodes, id, from + 1);
    }
}

/// The node with this id, by its place.
pub fn node_idx_for_id(nodes: &Vec<OutputNode>, id: u32) -> (r: Option<usize>)
    ensures
        match r {
            Some(i) => index_of(nodes@, id) == Some(i as int) && i < nodes@.len() && nodes@[i as int].id
                == id,
            None => index_of(nodes@, id) is None,
        },
{
    let mut i: usize = 0;
    while i < nodes.len()
        invariant
            i <= nodes@.len(),
            index_from(nodes@, id, i as int) == index_of(nodes@, id),
        decreases nodes@.len() - i,
    {
        if nodes[i].id == id {
            return Some(i);
        }
        i += 1;
    }
    None
}

} // verus!
