//! Bringing the compositor up: its primary output, and the renderer it composites with.

use vstd::prelude::*;
use vstd::string::*;
use crate::compositor_laws;
use crate::layout;
use crate::session::{initial_size, CaptureBook};
use crate::settings::{RustCaptureSettings, UNIT_SCALE_MICRO};
use crate::start;
use crate::text::append_unsigned;
use crate::wayland;
use crate::wayland::{Compositor, Mode, OutputNode};

verus! {

broadcast use vstd::std_specs::hash::group_hash_axioms;

/// The size the primary output comes up at: a fallback where none was asked for.
pub open spec fn primary_size(width: i32, height: i32) -> (i32, i32) {
    (
        if width > 0 {
            width
        } else {
            1024
        },
        if height > 0 {
            height
        } else {
            768
        },
    )
}

/// Settings that nothing but the size was chosen of.
pub open spec fn default_but_size(s: RustCaptureSettings, width: i32, height: i32) -> bool {
    &&& s.width == width
    &&& s.height == height
    &&& (RustCaptureSettings { width: 1024, height: 768, ..s }).is_default()
}

impl Compositor {
    /// The compositor as it comes up: the primary output alone, in the layout's corner, with no
    /// window, no capture and no host. It renders on a GPU where a render node was chosen and its
    /// renderer came up (`gpu_up`), else in software.
    pub fn new(
        width: i32,
        height: i32,
        render_node_path: String,
        gpu_up: bool,
        auto_gpu_selected: bool,
    ) -> (c: Compositor)
        requires
            start::frame_len(primary_size(width, height).0, primary_size(width, height).1)
                <= usize::MAX,
        ensures
            ({
                let (w, h) = primary_size(width, height);
                &&& c.nodes@.len() == 1
                &&& layout::fresh_node(c.nodes@[0], 0, w, h, 0, 0, UNIT_SCALE_MICRO)
                &&& default_but_size(c.settings, w, h)
            }),
            c.windows@.len() == 0,
            c.pending_windows@.len() == 0,
            c.host_layout_pending@.len() == 0,
            c.book.alive@ == Set::<u32>::empty(),
            c.book.errors@ == Map::<u32, String>::empty(),
            c.book.owners@ == Map::<u32, u64>::empty(),
            c.use_gpu == (render_node_path@.len() != 0 && gpu_up),
            c.render_node_path == render_node_path,
            c.auto_gpu_selected == auto_gpu_selected,
            c.host_outputs is None,
            !c.render_cursor_on_framebuffer,
            c.laid_out(),
            compositor_laws::liveness(c),
            compositor_laws::homed(c.windows@, c.nodes@),
            compositor_laws::exists_output(c.nodes@, 0),
    {
        let (w, h): (i32, i32) = initial_size(width, height);
        let use_gpu = render_node_path.as_str().unicode_len() != 0 && gpu_up;
        let len: usize = start::frame_bytes(w, h);
        let frame_buffer: Vec<u8> = vec![0u8; len];
        assert(frame_buffer@ =~= Seq::new((w * h * 4) as nat, |_i: int| 0u8));
        let mut name = "HEADLESS-".to_owned();
        append_unsigned(&mut name, 1);
        let node = OutputNode {
            id: 0,
            name,
            pos: (0, 0),
            mode: Some(Mode { w, h, refresh: 60_000 }),
            scale_micro: UNIT_SCALE_MICRO,
            capture: None,
            frame_buffer,
            frame_seq: 0,
            target_seeded: false,
            content_hold_until: None,
        };
        let mut settings = RustCaptureSettings::default();
        settings.width = w;
        settings.height = h;
        let mut nodes: Vec<OutputNode> = Vec::new();
        nodes.push(node);
        let c = Compositor {
            nodes,
            windows: Vec::new(),
            pending_windows: Vec::new(),
            host_layout_pending: Vec::new(),
            book: CaptureBook::new(),
            settings,
            use_gpu,
            render_node_path,
            auto_gpu_selected,
            host_outputs: None,
            render_cursor_on_framebuffer: false,
        };
        proof {
            assert(c.nodes@[0].id == 0);
            assert forall|d: u32| #[trigger] c.book.alive@.contains(d) == wayland::captured(
                c.nodes@,
                d,
            ) by {
                assert(!wayland::captured(c.nodes@, d));
            }
        }
        c
    }
}

} // verus!
