//! The layout of outputs: where they may be placed, what moves with them, and what happens to the
//! windows on one that goes.
//!
//! Only placements are validated: a capture that reconfigures an output resizes it as it is, so
//! keeping a relayout of several steps free of overlaps is the caller's ordering.

use vstd::prelude::*;
use vstd::string::*;
use crate::settings::UNIT_SCALE_MICRO;
use crate::text;
use crate::text::append_unsigned;
use crate::wayland;
use crate::wayland::{node_idx_for_id, Compositor, Mode, OutputNode, Window};

verus! {

/// Two rectangles `(x, y, w, h)` share a pixel.
pub open spec fn overlap(a: (i32, i32, i32, i32), b: (i32, i32, i32, i32)) -> bool {
    &&& a.2 > 0 && a.3 > 0 && b.2 > 0 && b.3 > 0
    &&& a.0 < b.0 + b.2 && b.0 < a.0 + a.2
    &&& a.1 < b.1 + b.3 && b.1 < a.1 + a.3
}

/// Whether the rectangles `(x, y, w, h)` overlap: touching edges do not count and empty
/// rectangles never overlap anything. Extreme coordinates do not wrap.
pub fn rects_overlap(a: (i32, i32, i32, i32), b: (i32, i32, i32, i32)) -> (r: bool)
    ensures
        r == overlap(a, b),
{
    let (ax, ay, aw, ah): (i64, i64, i64, i64) = (
        a.0 as i64,
        a.1 as i64,
        a.2 as i64,
        a.3 as i64,
    );
    let (bx, by, bw, bh): (i64, i64, i64, i64) = (
        b.0 as i64,
        b.1 as i64,
        b.2 as i64,
        b.3 as i64,
    );
    aw > 0 && ah > 0 && bw > 0 && bh > 0 && ax < bx + bw && bx < ax + aw && ay < by + bh && by < ay
        + ah
}

/// A pixel lies in a rectangle.
pub open spec fn inside(r: (i32, i32, i32, i32), x: int, y: int) -> bool {
    r.0 <= x < r.0 + r.2 && r.1 <= y < r.1 + r.3
}

/// Two rectangles overlap exactly where some pixel lies in both.
pub proof fn overlapping_is_sharing_a_pixel(a: (i32, i32, i32, i32), b: (i32, i32, i32, i32))
    ensures
        overlap(a, b) <==> exists|x: int, y: int| #[trigger] inside(a, x, y) && inside(b, x, y),
{
    if overlap(a, b) {
        let x = if a.0 > b.0 {
            a.0 as int
        } else {
            b.0 as int
        };
        let y = if a.1 > b.1 {
            a.1 as int
        } else {
            b.1 as int
        };
        assert(inside(a, x, y) && inside(b, x, y));
    }
}

/// Which of two rectangles comes first does not matter, and an empty one overlaps nothing.
pub proof fn overlap_is_symmetric(a: (i32, i32, i32, i32), b: (i32, i32, i32, i32))
    ensures
        overlap(a, b) == overlap(b, a),
        a.2 <= 0 || a.3 <= 0 ==> !overlap(a, b),
        a.2 > 0 && a.3 > 0 ==> overlap(a, a),
{
}

/// A length divided by a scale in millionths, to the nearest and half away from zero, within the
/// range of lengths.
pub open spec fn scaled(len: i32, scale_micro: u32) -> int {
    let d = scale_micro as int;
    let v = if len >= 0 {
        (len * 2_000_000 + d) / (2 * d)
    } else {
        -((-len * 2_000_000 + d) / (2 * d))
    };
    if v > i32::MAX {
        i32::MAX as int
    } else if v < i32::MIN {
        i32::MIN as int
    } else {
        v
    }
}

/// A length in logical pixels.
pub fn to_logical(len: i32, scale_micro: u32) -> (r: i32)
    requires
        scale_micro > 0,
    ensures
        r == scaled(len, scale_micro),
{
    let d: i64 = scale_micro as i64;
    if len >= 0 {
        let n: i64 = len as i64 * 2_000_000 + d;
        let v: i64 = n / (2 * d);
        if v > 0x7fff_ffff {
            0x7fff_ffff
        } else {
            v as i32
        }
    } else {
        let n: i64 = -(len as i64) * 2_000_000 + d;
        let v: i64 = n / (2 * d);
        if v > 0x8000_0000 {
            i32::MIN
        } else {
            (-v) as i32
        }
    }
}

/// At a scale of one a length is itself.
pub proof fn unscaled_lengths_stay(len: i32)
    ensures
        scaled(len, UNIT_SCALE_MICRO) == len,
{
    assert(len >= 0 ==> (len * 2_000_000 + 1_000_000) / 2_000_000 == len);
    assert(len < 0 ==> (-len * 2_000_000 + 1_000_000) / 2_000_000 == -len);
}

/// The rectangle an output takes in logical pixels.
pub open spec fn logical_rect(n: OutputNode) -> Option<(i32, i32, i32, i32)> {
    match n.mode {
        Some(m) => Some(
            (
                n.pos.0,
                n.pos.1,
                scaled(m.w, n.scale_micro) as i32,
                scaled(m.h, n.scale_micro) as i32,
            ),
        ),
        None => None,
    }
}

/// The rectangle an output takes in physical pixels.
pub open spec fn physical_rect(n: OutputNode) -> Option<(i32, i32, i32, i32)> {
    match n.mode {
        Some(m) => Some((n.pos.0, n.pos.1, m.w, m.h)),
        None => None,
    }
}

/// Every output has a scale.
pub open spec fn all_scaled(nodes: Seq<OutputNode>) -> bool {
    forall|i: int| 0 <= i < nodes.len() ==> (#[trigger] nodes[i]).scale_micro > 0
}

/// Which rectangles of two outputs overlap.
#[derive(Clone, Copy, Debug, PartialEq, Eq, Structural)]
pub enum Flavor {
    /// The scale-divided ones, which windows are laid out by.
    Logical,
    /// The ones in mode pixels, which input and the cursor are placed by.
    Physical,
}

/// An output overlaps a placement: by its logical rectangle, else by its physical one.
pub open spec fn clash(
    n: OutputNode,
    logical: (i32, i32, i32, i32),
    physical: (i32, i32, i32, i32),
) -> Option<(Flavor, (i32, i32, i32, i32))> {
    if logical_rect(n) is Some && overlap(logical, logical_rect(n)->0) {
        Some((Flavor::Logical, logical_rect(n)->0))
    } else if physical_rect(n) is Some && overlap(physical, physical_rect(n)->0) {
        Some((Flavor::Physical, physical_rect(n)->0))
    } else {
        None
    }
}

/// The first output from the `i`th on, but for one, that overlaps a placement.
pub open spec fn first_clash(
    nodes: Seq<OutputNode>,
    skip: Option<u32>,
    logical: (i32, i32, i32, i32),
    physical: (i32, i32, i32, i32),
    i: int,
) -> Option<(u32, Flavor, (i32, i32, i32, i32))>
    decreases nodes.len() - i,
{
    if i >= nodes.len() {
        None
    } else if skip != Some(nodes[i].id) && clash(nodes[i], logical, physical) is Some {
        let (flavor, rect) = clash(nodes[i], logical, physical)->0;
        Some((nodes[i].id, flavor, rect))
    } else {
        first_clash(nodes, skip, logical, physical, i + 1)
    }
}

proof fn no_clash(
    nodes: Seq<OutputNode>,
    skip: Option<u32>,
    logical: (i32, i32, i32, i32),
    physical: (i32, i32, i32, i32),
    i: int,
)
    requires
        0 <= i <= nodes.len(),
        first_clash(nodes, skip, logical, physical, i) is None,
    ensures
        forall|j: int|
            i <= j < nodes.len() && skip != Some((#[trigger] nodes[j]).id) ==> clash(
                nodes[j],
                logical,
                physical,
            ) is None,
    decreases nodes.len() - i,
{
    if i < nodes.len() {
        no_clash(nodes, skip, logical, physical, i + 1);
    }
}

/// The first output (excluding `skip_id`) whose rectangle overlaps a candidate placement. Both
/// flavours are checked, because input and the cursor key off the physical rectangles while window
/// layout keys off the logical ones, and neither may overlap.
pub fn find_output_overlap(
    nodes: &Vec<OutputNode>,
    skip_id: Option<u32>,
    logical: (i32, i32, i32, i32),
    physical: (i32, i32, i32, i32),
) -> (r: Option<(u32, Flavor, (i32, i32, i32, i32))>)
    requires
        all_scaled(nodes@),
    ensures
        r == first_clash(nodes@, skip_id, logical, physical, 0),
{
    let mut i: usize = 0;
    while i < nodes.len()
        invariant
            i <= nodes@.len(),
            all_scaled(nodes@),
            first_clash(nodes@, skip_id, logical, physical, i as int) == first_clash(
                nodes@,
                skip_id,
                logical,
                physical,
                0,
            ),
        decreases nodes@.len() - i,
    {
        let n: &OutputNode = &nodes[i];
        let skipped = match skip_id {
            Some(s) => s == n.id,
            None => false,
        };
        if !skipped {
            if let Some(m) = n.mode {
                let l = (
                    n.pos.0,
                    n.pos.1,
                    to_logical(m.w, n.scale_micro),
                    to_logical(m.h, n.scale_micro),
                );
                if rects_overlap(logical, l) {
                    return Some((n.id, Flavor::Logical, l));
                }
                let p = (n.pos.0, n.pos.1, m.w, m.h);
                if rects_overlap(physical, p) {
                    return Some((n.id, Flavor::Physical, p));
                }
            }
        }
        i += 1;
    }
    None
}

/// Two outputs do not overlap, in either flavour.
pub open spec fn apart(a: OutputNode, b: OutputNode) -> bool {
    &&& logical_rect(a) is Some && logical_rect(b) is Some ==> !overlap(
        logical_rect(a)->0,
        logical_rect(b)->0,
    )
    &&& physical_rect(a) is Some && physical_rect(b) is Some ==> !overlap(
        physical_rect(a)->0,
        physical_rect(b)->0,
    )
}

/// No two outputs overlap.
pub open spec fn all_apart(nodes: Seq<OutputNode>) -> bool {
    forall|i: int, j: int|
        0 <= i < nodes.len() && 0 <= j < nodes.len() && i != j ==> apart(
            #[trigger] nodes[i],
            #[trigger] nodes[j],
        )
}

/// Why an output is not created.
#[derive(Debug)]
pub enum Refusal {
    /// The id is taken.
    Exists,
    /// The size or the scale is not positive.
    Geometry,
    /// Every output of the host backs a display already.
    Capacity(usize),
    /// It would overlap this output.
    Overlap(u32, Flavor, (i32, i32, i32, i32)),
    /// No render target could be allocated.
    Backing,
}

/// Why an output may not be created, if it may not; the render target is left aside.
pub open spec fn refusal(
    c: Compositor,
    id: u32,
    w: i32,
    h: i32,
    x: i32,
    y: i32,
    scale_micro: u32,
) -> Option<Refusal> {
    let logical = (x, y, scaled(w, scale_micro) as i32, scaled(h, scale_micro) as i32);
    if wayland::index_of(c.nodes@, id) is Some {
        Some(Refusal::Exists)
    } else if w <= 0 || h <= 0 || scale_micro == 0 {
        Some(Refusal::Geometry)
    } else if c.host_outputs is Some && c.nodes@.len() >= c.host_outputs->0 {
        Some(Refusal::Capacity(c.host_outputs->0))
    } else {
        match first_clash(c.nodes@, None, logical, (x, y, w, h), 0) {
            Some((other, flavor, rect)) => Some(Refusal::Overlap(other, flavor, rect)),
            None => None,
        }
    }
}

/// The name of an output.
pub open spec fn output_name(id: u32) -> Seq<char> {
    "HEADLESS-"@ + text::decimal((id + 1) as nat)
}

/// A number in decimal, three digits at least.
pub open spec fn padded(n: nat) -> Seq<char> {
    (if n < 10 {
        "00"@
    } else if n < 100 {
        "0"@
    } else {
        Seq::empty()
    }) + text::decimal(n)
}

/// The serial number of an output.
pub fn output_serial(id: u32) -> (s: String)
    requires
        id < u32::MAX,
    ensures
        s@ == padded((id + 1) as nat),
{
    let mut s = String::new();
    if id + 1 < 10 {
        s.append("00");
    } else if id + 1 < 100 {
        s.append("0");
    }
    append_unsigned(&mut s, id as u64 + 1);
    assert(s@ =~= padded((id + 1) as nat));
    s
}

/// How many windows are tagged for an output.
pub open spec fn windows_on(windows: Seq<Window>, output: u32, n: int) -> nat
    decreases n,
{
    if n <= 0 {
        0
    } else if windows[n - 1].output == output {
        windows_on(windows, output, n - 1) + 1
    } else {
        windows_on(windows, output, n - 1)
    }
}

/// A window waits for an output: it is parked, or (`stacked`) shares its output with another.
pub open spec fn waits(windows: Seq<Window>, i: int, stacked: bool) -> bool {
    if stacked {
        windows_on(windows, windows[i].output, windows.len() as int) >= 2
    } else {
        windows[i].parked
    }
}

/// The `i`th window is the newest that waits, the later of two with one number.
pub open spec fn newest_waiting(windows: Seq<Window>, stacked: bool, i: int) -> bool {
    &&& 0 <= i < windows.len()
    &&& waits(windows, i, stacked)
    &&& forall|j: int|
        0 <= j < windows.len() && #[trigger] waits(windows, j, stacked) ==> windows[j].id
            < windows[i].id || (windows[j].id == windows[i].id && j <= i)
}

/// No window waits.
pub open spec fn none_waits(windows: Seq<Window>, stacked: bool) -> bool {
    forall|j: int| 0 <= j < windows.len() ==> !#[trigger] waits(windows, j, stacked)
}

/// The window that a new output adopts: the newest parked one; else the newest that shares its
/// output with another.
pub open spec fn adopted(windows: Seq<Window>, r: Option<usize>) -> bool {
    match r {
        Some(i) => newest_waiting(windows, false, i as int) || (none_waits(windows, false)
            && newest_waiting(windows, true, i as int)),
        None => none_waits(windows, false) && none_waits(windows, true),
    }
}

fn count_on(windows: &Vec<Window>, output: u32) -> (n: usize)
    ensures
        n == windows_on(windows@, output, windows@.len() as int),
{
    let mut n: usize = 0;
    let mut i: usize = 0;
    while i < windows.len()
        invariant
            i <= windows@.len(),
            n <= i,
            n == windows_on(windows@, output, i as int),
        decreases windows@.len() - i,
    {
        if windows[i].output == output {
            n += 1;
        }
        i += 1;
    }
    n
}

fn newest(windows: &Vec<Window>, stacked: bool) -> (r: Option<usize>)
    ensures
        match r {
            Some(i) => newest_waiting(windows@, stacked, i as int),
            None => none_waits(windows@, stacked),
        },
{
    let mut best: Option<usize> = None;
    let mut i: usize = 0;
    while i < windows.len()
        invariant
            i <= windows@.len(),
            match best {
                Some(b) => {
                    &&& b < i
                    &&& waits(windows@, b as int, stacked)
                    &&& forall|j: int|
                        0 <= j < i && #[trigger] waits(windows@, j, stacked) ==> windows@[j].id
                            < windows@[b as int].id || (windows@[j].id == windows@[b as int].id && j
                            <= b)
                },
                None => forall|j: int| 0 <= j < i ==> !#[trigger] waits(windows@, j, stacked),
            },
        decreases windows@.len() - i,
    {
        let waiting = if stacked {
            count_on(windows, windows[i].output) >= 2
        } else {
            windows[i].parked
        };
        assert(waiting == waits(windows@, i as int, stacked));
        if waiting {
            let newer = match best {
                Some(b) => windows[i].id >= windows[b].id,
                None => true,
            };
            if newer {
                best = Some(i);
            }
        }
        i += 1;
    }
    best
}

/// The window that a new output adopts.
pub fn window_to_adopt(windows: &Vec<Window>) -> (r: Option<usize>)
    ensures
        adopted(windows@, r),
{
    match newest(windows, false) {
        Some(i) => Some(i),
        None => newest(windows, true),
    }
}

/// A window placed on an output: tagged for it, mapped at its origin, no longer parked.
pub open spec fn placed(w: Window, node: OutputNode) -> Window {
    Window { output: node.id, parked: false, x: node.pos.0, y: node.pos.1, ..w }
}

/// A node as it is created.
pub open spec fn fresh_node(
    n: OutputNode,
    id: u32,
    w: i32,
    h: i32,
    x: i32,
    y: i32,
    scale_micro: u32,
) -> bool {
    &&& n.id == id
    &&& n.name@ == output_name(id)
    &&& n.pos == (x, y)
    &&& n.mode == Some(Mode { w, h, refresh: 60_000 })
    &&& n.scale_micro == scale_micro
    &&& n.capture is None
    &&& n.frame_buffer@ == Seq::new((w * h * 4) as nat, |_i: int| 0u8)
    &&& n.frame_seq == 0
    &&& !n.target_seeded
    &&& n.content_hold_until is None
}

/// Two outputs that are apart from one another stay so when they are named the other way round.
proof fn apart_is_symmetric(a: OutputNode, b: OutputNode)
    requires
        apart(a, b),
    ensures
        apart(b, a),
{
    if logical_rect(a) is Some && logical_rect(b) is Some {
        overlap_is_symmetric(logical_rect(a)->0, logical_rect(b)->0);
    }
    if physical_rect(a) is Some && physical_rect(b) is Some {
        overlap_is_symmetric(physical_rect(a)->0, physical_rect(b)->0);
    }
}

/// The first node with an id that no other has is the only one.
proof fn pushed_ids_stay_distinct(nodes: Seq<OutputNode>, n: OutputNode)
    requires
        wayland::distinct_ids(nodes),
        wayland::index_of(nodes, n.id) is None,
    ensures
        wayland::distinct_ids(nodes.push(n)),
{
    wayland::index_finds(nodes, n.id, 0);
}

impl Compositor {
    /// Outputs have distinct ids and a scale, and do not overlap.
    pub open spec fn laid_out(&self) -> bool {
        &&& wayland::distinct_ids(self.nodes@)
        &&& all_scaled(self.nodes@)
        &&& all_apart(self.nodes@)
    }

    /// Nothing but the outputs and the windows differs.
    pub open spec fn same_but_layout(self, other: Compositor) -> bool {
        &&& self.pending_windows == other.pending_windows
        &&& self.host_layout_pending == other.host_layout_pending
        &&& self.book == other.book
        &&& self.settings == other.settings
        &&& self.use_gpu == other.use_gpu
        &&& self.render_node_path == other.render_node_path
        &&& self.auto_gpu_selected == other.auto_gpu_selected
        &&& self.host_outputs == other.host_outputs
        &&& self.render_cursor_on_framebuffer == other.render_cursor_on_framebuffer
    }

    /// Whether an output may be created, ahead of allocating its render target.
    pub fn may_create_output(
        &self,
        id: u32,
        width: i32,
        height: i32,
        x: i32,
        y: i32,
        scale_micro: u32,
    ) -> (r: Option<Refusal>)
        requires
            all_scaled(self.nodes@),
        ensures
            r == refusal(*self, id, width, height, x, y, scale_micro),
    {
        if node_idx_for_id(&self.nodes, id).is_some() {
            return Some(Refusal::Exists);
        }
        if width <= 0 || height <= 0 || scale_micro == 0 {
            return Some(Refusal::Geometry);
        }
        if let Some(capacity) = self.host_outputs {
            if self.nodes.len() >= capacity {
                return Some(Refusal::Capacity(capacity));
            }
        }
        let lw: i32 = to_logical(width, scale_micro);
        let lh: i32 = to_logical(height, scale_micro);
        match find_output_overlap(&self.nodes, None, (x, y, lw, lh), (x, y, width, height)) {
            Some((other, flavor, rect)) => Some(Refusal::Overlap(other, flavor, rect)),
            None => None,
        }
    }

    /// Create an additional output mapped into the layout at `(x, y)`, and hand it the newest
    /// window that waits for one. `backed` says whether its render target could be allocated.
    pub fn create_output_on(
        &mut self,
        id: u32,
        width: i32,
        height: i32,
        x: i32,
        y: i32,
        scale_micro: u32,
        backed: bool,
    ) -> (r: Result<Option<usize>, Refusal>)
        requires
            id < u32::MAX,
            all_scaled(old(self).nodes@),
            width > 0 && height > 0 ==> width * height * 4 <= usize::MAX,
        ensures
            match refusal(*old(self), id, width, height, x, y, scale_micro) {
                Some(why) => r == Err::<Option<usize>, Refusal>(why),
                None => if backed {
                    r is Ok
                } else {
                    r == Err::<Option<usize>, Refusal>(Refusal::Backing)
                },
            },
            r is Err ==> *final(self) == *old(self),
            r matches Ok(adopt) ==> {
                let node = final(self).nodes@.last();
                &&& final(self).nodes@ == old(self).nodes@.push(node)
                &&& fresh_node(node, id, width, height, x, y, scale_micro)
                &&& adopted(old(self).windows@, adopt)
                &&& final(self).windows@ == match adopt {
                    Some(i) => old(self).windows@.update(
                        i as int,
                        placed(old(self).windows@[i as int], node),
                    ),
                    None => old(self).windows@,
                }
                &&& old(self).laid_out() ==> final(self).laid_out()
            },
            final(self).same_but_layout(*old(self)),
    {
        match self.may_create_output(id, width, height, x, y, scale_micro) {
            Some(why) => {
                return Err(why);
            },
            None => {},
        }
        if !backed {
            return Err(Refusal::Backing);
        }
        let mut name = "HEADLESS-".to_owned();
        append_unsigned(&mut name, id as u64 + 1);
        assert(width * height >= 0) by (nonlinear_arith)
            requires
                width > 0,
                height > 0,
        ;
        assert(width * height <= 0x7fff_ffff * 0x7fff_ffff) by (nonlinear_arith)
            requires
                0 < width <= 0x7fff_ffff,
                0 < height <= 0x7fff_ffff,
        ;
        let len: usize = (width as u64 * height as u64 * 4) as usize;
        let frame_buffer: Vec<u8> = vec![0u8; len];
        assert(frame_buffer@ =~= Seq::new((width * height * 4) as nat, |_i: int| 0u8));
        let node = OutputNode {
            id,
            name,
            pos: (x, y),
            mode: Some(Mode { w: width, h: height, refresh: 60_000 }),
            scale_micro,
            capture: None,
            frame_buffer,
            frame_seq: 0,
            target_seeded: false,
            content_hold_until: None,
        };
        let ghost before = self.nodes@;
        let ghost added = node;
        proof {
            no_clash(
                before,
                None,
                logical_rect(added)->0,
                (x, y, width, height),
                0,
            );
        }
        self.nodes.push(node);
        let adopt = window_to_adopt(&self.windows);
        if let Some(i) = adopt {
            let w: Window = self.windows[i];
            self.windows.set(i, Window { output: id, parked: false, x, y, ..w });
        }
        assert(old(self).laid_out() ==> self.laid_out()) by {
            if old(self).laid_out() {
                pushed_ids_stay_distinct(before, added);
                assert forall|i: int, j: int|
                    0 <= i < self.nodes@.len() && 0 <= j < self.nodes@.len() && i
                        != j implies apart(#[trigger] self.nodes@[i], #[trigger] self.nodes@[j]) by {
                    if i < before.len() && j < before.len() {
                        assert(apart(before[i], before[j]));
                    } else if i < before.len() {
                        assert(clash(before[i], logical_rect(added)->0, (x, y, width, height))
                            is None);
                        apart_is_symmetric(added, before[i]);
                    } else {
                        assert(clash(before[j], logical_rect(added)->0, (x, y, width, height))
                            is None);
                    }
                }
            }
        }
        Ok(adopt)
    }

    /// The size an output takes in logical pixels; nothing without a mode.
    pub open spec fn logical_size(n: OutputNode) -> (i32, i32) {
        match n.mode {
            Some(m) => (
                scaled(m.w, n.scale_micro) as i32,
                scaled(m.h, n.scale_micro) as i32,
            ),
            None => (0, 0),
        }
    }

    /// The size an output takes in physical pixels; nothing without a mode.
    pub open spec fn physical_size(n: OutputNode) -> (i32, i32) {
        match n.mode {
            Some(m) => (m.w, m.h),
            None => (0, 0),
        }
    }

    /// A move is refused: the output is unknown, or another one is in the way.
    pub open spec fn move_refused(&self, id: u32, x: i32, y: i32) -> bool {
        match wayland::index_of(self.nodes@, id) {
            None => true,
            Some(i) => {
                let n = self.nodes@[i];
                let l = Compositor::logical_size(n);
                let p = Compositor::physical_size(n);
                n.pos != (x, y) && first_clash(
                    self.nodes@,
                    Some(id),
                    (x, y, l.0, l.1),
                    (x, y, p.0, p.1),
                    0,
                ) is Some
            },
        }
    }

    /// The windows of an output that moved, mapped at its new origin.
    pub open spec fn moved_windows(windows: Seq<Window>, id: u32, x: i32, y: i32) -> Seq<Window> {
        windows.map_values(
            |w: Window|
                if w.output == id {
                    Window { x, y, ..w }
                } else {
                    w
                },
        )
    }

    /// An output that moved: its capture is drawn anew.
    pub open spec fn moved_node(before: OutputNode, after: OutputNode, x: i32, y: i32) -> bool {
        &&& after.pos == (x, y)
        &&& after.id == before.id
        &&& after.name == before.name
        &&& after.mode == before.mode
        &&& after.scale_micro == before.scale_micro
        &&& after.frame_buffer == before.frame_buffer
        &&& after.frame_seq == before.frame_seq
        &&& after.target_seeded == before.target_seeded
        &&& after.content_hold_until == before.content_hold_until
        &&& after.capture == match before.capture {
            Some(c) => Some(wayland::WlCapture { needs_full_render: true, ..c }),
            None => None,
        }
    }

    /// Move an existing output (the primary included) to layout offset `(x, y)`. Its windows
    /// follow. A destination that overlaps another output is refused; one where it stands already
    /// changes nothing.
    pub fn reposition_output_on(&mut self, id: u32, x: i32, y: i32) -> (ok: bool)
        requires
            all_scaled(old(self).nodes@),
        ensures
            ok == !old(self).move_refused(id, x, y),
            !ok ==> *final(self) == *old(self),
            ok ==> {
                let i = wayland::index_of(old(self).nodes@, id)->0;
                let before = old(self).nodes@[i];
                if before.pos == (x, y) {
                    *final(self) == *old(self)
                } else {
                    &&& final(self).nodes@ == old(self).nodes@.update(i, final(self).nodes@[i])
                    &&& Compositor::moved_node(before, final(self).nodes@[i], x, y)
                    &&& final(self).windows@ == Compositor::moved_windows(
                        old(self).windows@,
                        id,
                        x,
                        y,
                    )
                }
            },
            old(self).laid_out() ==> final(self).laid_out(),
            final(self).same_but_layout(*old(self)),
    {
        let idx: usize = match node_idx_for_id(&self.nodes, id) {
            None => {
                return false;
            },
            Some(i) => i,
        };
        let ghost nodes = self.nodes@;
        let (px, py): (i32, i32) = self.nodes[idx].pos;
        if px == x && py == y {
            return true;
        }
        let scale: u32 = self.nodes[idx].scale_micro;
        let (lw, lh, pw, ph): (i32, i32, i32, i32) = match self.nodes[idx].mode {
            Some(m) => (to_logical(m.w, scale), to_logical(m.h, scale), m.w, m.h),
            None => (0, 0, 0, 0),
        };
        let clashing = find_output_overlap(&self.nodes, Some(id), (x, y, lw, lh), (x, y, pw, ph));
        if clashing.is_some() {
            return false;
        }
        proof {
            no_clash(nodes, Some(id), (x, y, lw, lh), (x, y, pw, ph), 0);
        }
        let node = &mut self.nodes[idx];
        node.pos = (x, y);
        if let Some(cap) = &mut node.capture {
            cap.needs_full_render = true;
        }
        assert(self.nodes@ =~= nodes.update(idx as int, self.nodes@[idx as int]));
        let ghost windows = self.windows@;
        let mut k: usize = 0;
        while k < self.windows.len()
            invariant
                k <= self.windows@.len(),
                self.windows@.len() == windows.len(),
                forall|j: int|
                    0 <= j < windows.len() ==> #[trigger] self.windows@[j] == if j < k
                        && windows[j].output == id {
                        Window { x, y, ..windows[j] }
                    } else {
                        windows[j]
                    },
                self.nodes@ == nodes.update(idx as int, self.nodes@[idx as int]),
                self.same_but_layout(*old(self)),
                idx < nodes.len(),
                Compositor::moved_node(nodes[idx as int], self.nodes@[idx as int], x, y),
            decreases self.windows@.len() - k,
        {
            if self.windows[k].output == id {
                let w: Window = self.windows[k];
                self.windows.set(k, Window { x, y, ..w });
            }
            k += 1;
        }
        assert(self.windows@ =~= Compositor::moved_windows(windows, id, x, y));
        assert(old(self).laid_out() ==> self.laid_out()) by {
            if old(self).laid_out() {
                let moved = self.nodes@[idx as int];
                assert forall|i: int, j: int|
                    0 <= i < self.nodes@.len() && 0 <= j < self.nodes@.len() && i
                        != j implies apart(#[trigger] self.nodes@[i], #[trigger] self.nodes@[j]) by {
                    if i != idx && j != idx {
                        assert(apart(nodes[i], nodes[j]));
                    } else if i == idx {
                        assert(nodes[j].id != id);
                        assert(clash(nodes[j], (x, y, lw, lh), (x, y, pw, ph)) is None);
                    } else {
                        assert(nodes[i].id != id);
                        assert(clash(nodes[i], (x, y, lw, lh), (x, y, pw, ph)) is None);
                        apart_is_symmetric(moved, nodes[i]);
                    }
                }
                assert(wayland::distinct_ids(self.nodes@));
                assert(all_scaled(self.nodes@));
            }
        }
        true
    }
}

} // verus!
