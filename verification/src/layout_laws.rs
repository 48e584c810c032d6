//! What the layout does for its windows and its outputs: a window stays with its output, an output
//! is refused only for a reason, and a window without an output finds one.

use vstd::prelude::*;
use crate::layout;
use crate::layout::{Flavor, Refusal};
use crate::lifecycle;
use crate::settings::RustCaptureSettings;
use crate::text;
use crate::wayland;
use crate::wayland::{Compositor, OutputNode, WlCapture, Window};

verus! {

/// Every window that is not parked stands at the origin of its own output.
pub open spec fn seated(windows: Seq<Window>, nodes: Seq<OutputNode>) -> bool {
    forall|k: int, i: int|
        0 <= k < windows.len() && 0 <= i < nodes.len() && !(#[trigger] windows[k]).parked && (
        #[trigger] nodes[i]).id == windows[k].output ==> windows[k].x == nodes[i].pos.0
            && windows[k].y == nodes[i].pos.1
}

/// An output that moves takes its windows along: each of them stands at the new origin, still the
/// same window of the same output, parked or not as before; every other window is as it was, and
/// none is lost.
pub proof fn windows_follow_their_output(windows: Seq<Window>, id: u32, x: i32, y: i32, k: int)
    requires
        0 <= k < windows.len(),
    ensures
        ({
            let after = Compositor::moved_windows(windows, id, x, y);
            &&& after.len() == windows.len()
            &&& windows[k].output == id ==> after[k].x == x && after[k].y == y
            &&& after[k].id == windows[k].id
            &&& after[k].output == windows[k].output
            &&& after[k].parked == windows[k].parked
            &&& windows[k].output != id ==> after[k] == windows[k]
        }),
{
}

/// A move keeps every window that is not parked at the origin of its own output, and lets go of
/// nothing but the place: the output keeps its mode, scale and frames, its capture its settings and
/// session, and what was drawn for the old place is drawn again whole.
pub proof fn moves_keep_windows_seated(
    windows: Seq<Window>,
    before: Seq<OutputNode>,
    after: Seq<OutputNode>,
    i: int,
    x: i32,
    y: i32,
)
    requires
        0 <= i < before.len(),
        wayland::distinct_ids(before),
        after == before.update(i, after[i]),
        Compositor::moved_node(before[i], after[i], x, y),
    ensures
        seated(windows, before) ==> seated(
            Compositor::moved_windows(windows, before[i].id, x, y),
            after,
        ),
        after[i].pos == (x, y),
        after[i].id == before[i].id,
        after[i].mode == before[i].mode,
        after[i].scale_micro == before[i].scale_micro,
        after[i].frame_buffer == before[i].frame_buffer,
        after[i].capture is Some <==> before[i].capture is Some,
        before[i].capture matches Some(c) ==> {
            &&& after[i].capture->0.needs_full_render
            &&& after[i].capture->0.settings == c.settings
            &&& after[i].capture->0.session == c.session
            &&& after[i].capture->0.recording_sink == c.recording_sink
            &&& after[i].capture->0.frame_counter == c.frame_counter
        },
{
    let moved = Compositor::moved_windows(windows, before[i].id, x, y);
    if seated(windows, before) {
        assert forall|k: int, j: int|
            0 <= k < moved.len() && 0 <= j < after.len() && !(#[trigger] moved[k]).parked && (
            #[trigger] after[j]).id == moved[k].output implies moved[k].x == after[j].pos.0
            && moved[k].y == after[j].pos.1 by {
            assert(before[j].id == windows[k].output);
            if j != i {
                assert(before[i].id != before[j].id);
            }
        }
    }
}

/// A window that is placed on an output stands there: at its origin, tagged for it, no longer
/// parked, and the same window.
pub proof fn placed_windows_stand_on_their_output(w: Window, n: OutputNode)
    ensures
        layout::placed(w, n).output == n.id,
        !layout::placed(w, n).parked,
        layout::placed(w, n).x == n.pos.0,
        layout::placed(w, n).y == n.pos.1,
        layout::placed(w, n).id == w.id,
{
}

/// Placing a window keeps every other where it stands.
pub proof fn placing_keeps_windows_seated(windows: Seq<Window>, nodes: Seq<OutputNode>, w: int, n: int)
    requires
        0 <= w < windows.len(),
        0 <= n < nodes.len(),
        wayland::distinct_ids(nodes),
        seated(windows, nodes),
    ensures
        seated(windows.update(w, layout::placed(windows[w], nodes[n])), nodes),
{
    let after = windows.update(w, layout::placed(windows[w], nodes[n]));
    assert forall|k: int, i: int|
        0 <= k < after.len() && 0 <= i < nodes.len() && !(#[trigger] after[k]).parked && (
        #[trigger] nodes[i]).id == after[k].output implies after[k].x == nodes[i].pos.0
        && after[k].y == nodes[i].pos.1 by {
        if k == w {
            if i != n {
                assert(nodes[i].id != nodes[n].id);
            }
        } else {
            assert(windows[k].output == nodes[i].id);
        }
    }
}

/// The windows of an output that goes come to the primary: one that would cover the screen shown
/// there is parked at the parking place, any other stands at the primary's origin; none keeps the
/// output that is gone, and every window of another output is as it was.
pub proof fn windows_of_a_gone_output_come_home(
    windows: Seq<Window>,
    id: u32,
    covers: Seq<bool>,
    primary: (i32, i32),
    parking: (i32, i32),
    k: int,
)
    requires
        0 <= k < windows.len(),
        id != 0,
    ensures
        ({
            let w = Compositor::relocated(windows, id, covers, primary, parking, k);
            &&& w.output != id
            &&& w.id == windows[k].id
            &&& windows[k].output != id ==> w == windows[k]
            &&& windows[k].output == id ==> w.output == 0
            &&& windows[k].output == id && w.parked ==> w.x == parking.0 && w.y == parking.1
            &&& windows[k].output == id && !w.parked ==> w.x == primary.0 && w.y == primary.1
        }),
        (forall|i: int| 0 <= i < k ==> (#[trigger] windows[i]).output != id) && windows[k].output
            == id ==> Compositor::relocated(windows, id, covers, primary, parking, k).parked
            == covers[0],
{
    if forall|i: int| 0 <= i < k ==> (#[trigger] windows[i]).output != id {
        none_on(windows, id, k);
    }
}

proof fn none_on(windows: Seq<Window>, id: u32, n: int)
    requires
        0 <= n <= windows.len(),
        forall|i: int| 0 <= i < n ==> (#[trigger] windows[i]).output != id,
    ensures
        layout::windows_on(windows, id, n) == 0,
    decreases n,
{
    if n > 0 {
        none_on(windows, id, n - 1);
    }
}

/// Which verdict the `k`th window of an output gets when the output goes: the one for its place
/// among the windows of that output, in their order, so that no two share one.
pub proof fn verdicts_go_by_place(windows: Seq<Window>, id: u32, j: int, k: int)
    requires
        0 <= j < k < windows.len(),
        windows[j].output == id,
        windows[k].output == id,
    ensures
        layout::windows_on(windows, id, j) < layout::windows_on(windows, id, k),
        layout::windows_on(windows, id, k) < layout::windows_on(
            windows,
            id,
            windows.len() as int,
        ),
{
    grows(windows, id, j + 1, k);
    grows(windows, id, k + 1, windows.len() as int);
}

proof fn grows(windows: Seq<Window>, id: u32, n: int, m: int)
    requires
        0 <= n <= m <= windows.len(),
    ensures
        layout::windows_on(windows, id, n) <= layout::windows_on(windows, id, m),
    decreases m,
{
    if n < m {
        grows(windows, id, n, m - 1);
    }
}

/// Two outputs share a pixel, in logical or in physical pixels.
pub open spec fn collide(n: OutputNode, x: i32, y: i32, l: (i32, i32), p: (i32, i32)) -> bool {
    n.mode matches Some(m) && {
        ||| exists|px: int, py: int| #[trigger]
            layout::inside((x, y, l.0, l.1), px, py) && layout::inside(
                (
                    n.pos.0,
                    n.pos.1,
                    layout::scaled(m.w, n.scale_micro) as i32,
                    layout::scaled(m.h, n.scale_micro) as i32,
                ),
                px,
                py,
            )
        ||| exists|px: int, py: int| #[trigger]
            layout::inside((x, y, p.0, p.1), px, py) && layout::inside(
                (n.pos.0, n.pos.1, m.w, m.h),
                px,
                py,
            )
    }
}

proof fn clashes_share_pixels(n: OutputNode, x: i32, y: i32, l: (i32, i32), p: (i32, i32))
    ensures
        layout::clash(n, (x, y, l.0, l.1), (x, y, p.0, p.1)) is Some <==> collide(n, x, y, l, p),
{
    if let Some(m) = n.mode {
        layout::overlapping_is_sharing_a_pixel(
            (x, y, l.0, l.1),
            (
                n.pos.0,
                n.pos.1,
                layout::scaled(m.w, n.scale_micro) as i32,
                layout::scaled(m.h, n.scale_micro) as i32,
            ),
        );
        layout::overlapping_is_sharing_a_pixel((x, y, p.0, p.1), (n.pos.0, n.pos.1, m.w, m.h));
    }
}

proof fn first_clash_is_one(
    nodes: Seq<OutputNode>,
    skip: Option<u32>,
    logical: (i32, i32, i32, i32),
    physical: (i32, i32, i32, i32),
    from: int,
)
    requires
        0 <= from <= nodes.len(),
    ensures
        layout::first_clash(nodes, skip, logical, physical, from) is Some <==> exists|j: int|
            from <= j < nodes.len() && skip != Some((#[trigger] nodes[j]).id) && layout::clash(
                nodes[j],
                logical,
                physical,
            ) is Some,
    decreases nodes.len() - from,
{
    if from < nodes.len() {
        first_clash_is_one(nodes, skip, logical, physical, from + 1);
        if skip != Some(nodes[from].id) && layout::clash(nodes[from], logical, physical) is Some {
            assert(skip != Some(nodes[from].id));
        }
    }
}

/// An output may move anywhere it shares no pixel with another, in logical or in physical pixels,
/// and may always stay where it stands; an output that does not exist may not move.
pub proof fn moves_are_refused_for_a_reason(c: Compositor, i: int, x: i32, y: i32)
    requires
        0 <= i < c.nodes@.len(),
        wayland::distinct_ids(c.nodes@),
    ensures
        ({
            let n = c.nodes@[i];
            let l = match n.mode {
                Some(m) => (
                    layout::scaled(m.w, n.scale_micro) as i32,
                    layout::scaled(m.h, n.scale_micro) as i32,
                ),
                None => (0i32, 0i32),
            };
            let p = match n.mode {
                Some(m) => (m.w, m.h),
                None => (0i32, 0i32),
            };
            c.move_refused(n.id, x, y) <==> n.pos != (x, y) && exists|j: int|
                0 <= j < c.nodes@.len() && j != i && collide(#[trigger] c.nodes@[j], x, y, l, p)
        }),
{
    let nodes = c.nodes@;
    let n = nodes[i];
    wayland::index_finds(nodes, n.id, 0);
    let at = wayland::index_of(nodes, n.id)->0;
    if at != i {
        assert(at < i ==> nodes[at].id != nodes[i].id);
        assert(i < at ==> nodes[i].id != nodes[at].id);
    }
    let l = Compositor::logical_size(n);
    let p = Compositor::physical_size(n);
    first_clash_is_one(nodes, Some(n.id), (x, y, l.0, l.1), (x, y, p.0, p.1), 0);
    assert forall|j: int| 0 <= j < nodes.len() implies (layout::clash(
        #[trigger] nodes[j],
        (x, y, l.0, l.1),
        (x, y, p.0, p.1),
    ) is Some <==> collide(nodes[j], x, y, l, p)) by {
        clashes_share_pixels(nodes[j], x, y, l, p);
    }
    assert forall|j: int| 0 <= j < nodes.len() && j != i implies (#[trigger] nodes[j]).id != n.id by {
        assert(j < i ==> nodes[j].id != nodes[i].id);
        assert(i < j ==> nodes[i].id != nodes[j].id);
    }
    if exists|j: int| 0 <= j < nodes.len() && j != i && collide(#[trigger] nodes[j], x, y, l, p) {
        let j = choose|j: int|
            0 <= j < nodes.len() && j != i && collide(#[trigger] nodes[j], x, y, l, p);
        assert(Some(n.id) != Some(nodes[j].id));
        assert(layout::clash(nodes[j], (x, y, l.0, l.1), (x, y, p.0, p.1)) is Some);
    }
}

/// An output is created unless its id is taken, its size or its scale is not positive, the host has
/// no output left for it, or it would share a pixel with another; and the refusal names the first
/// of these that holds, with the output in the way.
pub proof fn outputs_are_refused_for_a_reason(
    c: Compositor,
    id: u32,
    w: i32,
    h: i32,
    x: i32,
    y: i32,
    scale_micro: u32,
)
    ensures
        ({
            let r = layout::refusal(c, id, w, h, x, y, scale_micro);
            let taken = exists|j: int| 0 <= j < c.nodes@.len() && (#[trigger] c.nodes@[j]).id == id;
            let sized = w > 0 && h > 0 && scale_micro > 0;
            let full = c.host_outputs is Some && c.nodes@.len() >= c.host_outputs->0;
            let l = (
                layout::scaled(w, scale_micro) as i32,
                layout::scaled(h, scale_micro) as i32,
            );
            let blocked = exists|j: int|
                0 <= j < c.nodes@.len() && collide(#[trigger] c.nodes@[j], x, y, l, (w, h));
            &&& r is None <==> !taken && sized && !full && !blocked
            &&& taken ==> r == Some(Refusal::Exists)
            &&& !taken && !sized ==> r == Some(Refusal::Geometry)
            &&& !taken && sized && full ==> r == Some(Refusal::Capacity(c.host_outputs->0))
            &&& !taken && sized && !full && blocked ==> r is Some && r->0 is Overlap
        }),
{
    let nodes = c.nodes@;
    let l = (layout::scaled(w, scale_micro) as i32, layout::scaled(h, scale_micro) as i32);
    wayland::index_finds(nodes, id, 0);
    first_clash_is_one(nodes, None, (x, y, l.0, l.1), (x, y, w, h), 0);
    assert forall|j: int| 0 <= j < nodes.len() implies (layout::clash(
        #[trigger] nodes[j],
        (x, y, l.0, l.1),
        (x, y, w, h),
    ) is Some <==> collide(nodes[j], x, y, l, (w, h))) by {
        clashes_share_pixels(nodes[j], x, y, l, (w, h));
    }
    if exists|j: int| 0 <= j < nodes.len() && collide(#[trigger] nodes[j], x, y, l, (w, h)) {
        let j = choose|j: int|
            0 <= j < nodes.len() && collide(#[trigger] nodes[j], x, y, l, (w, h));
        assert(None::<u32> != Some(nodes[j].id));
        assert(layout::clash(nodes[j], (x, y, l.0, l.1), (x, y, w, h)) is Some);
    }
}

/// The rectangle is an output's own, in logical or in physical pixels.
pub open spec fn is_rect_of(n: OutputNode, flavor: Flavor, rect: (i32, i32, i32, i32)) -> bool {
    &&& rect.0 == n.pos.0 && rect.1 == n.pos.1
    &&& n.mode matches Some(m) && match flavor {
        Flavor::Physical => rect.2 == m.w && rect.3 == m.h,
        Flavor::Logical => rect.2 == layout::scaled(m.w, n.scale_micro) as i32 && rect.3
            == layout::scaled(m.h, n.scale_micro) as i32,
    }
}

/// The output that is named in the way stands there and is in the way, by the rectangle named: its
/// own in logical pixels, or in physical ones.
pub proof fn the_output_in_the_way_is_named(
    c: Compositor,
    id: u32,
    w: i32,
    h: i32,
    x: i32,
    y: i32,
    scale_micro: u32,
    other: u32,
    flavor: Flavor,
    rect: (i32, i32, i32, i32),
)
    requires
        layout::refusal(c, id, w, h, x, y, scale_micro) == Some(
            Refusal::Overlap(other, flavor, rect),
        ),
    ensures
        exists|j: int|
            0 <= j < c.nodes@.len() && (#[trigger] c.nodes@[j]).id == other && is_rect_of(
                c.nodes@[j],
                flavor,
                rect,
            ),
        flavor == Flavor::Physical ==> exists|px: int, py: int| #[trigger]
            layout::inside((x, y, w, h), px, py) && layout::inside(rect, px, py),
{
    let logical = (
        x,
        y,
        layout::scaled(w, scale_micro) as i32,
        layout::scaled(h, scale_micro) as i32,
    );
    clash_is_named(c.nodes@, logical, (x, y, w, h), 0);
    layout::overlapping_is_sharing_a_pixel((x, y, w, h), rect);
}

proof fn clash_is_named(
    nodes: Seq<OutputNode>,
    logical: (i32, i32, i32, i32),
    physical: (i32, i32, i32, i32),
    from: int,
)
    requires
        0 <= from <= nodes.len(),
        layout::first_clash(nodes, None, logical, physical, from) is Some,
    ensures
        ({
            let (other, flavor, rect) = layout::first_clash(nodes, None, logical, physical, from)->0;
            &&& exists|j: int|
                0 <= j < nodes.len() && (#[trigger] nodes[j]).id == other && is_rect_of(
                    nodes[j],
                    flavor,
                    rect,
                )
            &&& flavor == Flavor::Physical ==> layout::overlap(physical, rect)
            &&& flavor == Flavor::Logical ==> layout::overlap(logical, rect)
        }),
    decreases nodes.len() - from,
{
    if layout::clash(nodes[from], logical, physical) is Some {
        assert(nodes[from].id == nodes[from].id);
    } else {
        clash_is_named(nodes, logical, physical, from + 1);
    }
}

/// A length in logical pixels is the physical one divided by the scale, to half a pixel; at a
/// larger scale it is no longer, and it keeps its sign.
pub proof fn logical_lengths_are_nearest(len: i32, scale_micro: u32)
    requires
        scale_micro > 0,
    ensures
        ({
            let v = layout::scaled(len, scale_micro);
            let d = scale_micro as int;
            &&& i32::MIN <= v <= i32::MAX
            &&& i32::MIN < v < i32::MAX ==> -d <= 2 * (v * d) - 2 * (len * 1_000_000) <= d
            &&& len >= 0 ==> v >= 0
            &&& len <= 0 ==> v <= 0
        }),
{
    let d = scale_micro as int;
    let a = if len >= 0 {
        len as int
    } else {
        -len
    };
    let n = a * 2_000_000 + d;
    let q = n / (2 * d);
    vstd::arithmetic::div_mod::lemma_fundamental_div_mod(n, 2 * d);
    vstd::arithmetic::div_mod::lemma_mod_bound(n, 2 * d);
    assert((2 * d) * q == 2 * (q * d)) by (nonlinear_arith);
    vstd::arithmetic::div_mod::lemma_div_pos_is_pos(n, 2 * d);
    assert((-q) * d == -(q * d)) by (nonlinear_arith);
    if len == 0 {
        assert(d / (2 * d) == 0) by (nonlinear_arith)
            requires
                d > 0,
        ;
    }
}

/// A window shares its output with another one.
pub open spec fn shares(windows: Seq<Window>, i: int) -> bool {
    exists|j: int|
        0 <= j < windows.len() && j != i && (#[trigger] windows[j]).output == windows[i].output
}

proof fn counted_twice(windows: Seq<Window>, i: int)
    requires
        0 <= i < windows.len(),
    ensures
        layout::windows_on(windows, windows[i].output, windows.len() as int) >= 2 <==> shares(
            windows,
            i,
        ),
{
    let id = windows[i].output;
    let n = windows.len() as int;
    grows(windows, id, i + 1, n);
    if shares(windows, i) {
        let j = choose|j: int|
            0 <= j < windows.len() && j != i && (#[trigger] windows[j]).output == windows[i].output;
        if j < i {
            grows(windows, id, j + 1, i);
        } else {
            grows(windows, id, i + 1, j);
            grows(windows, id, j + 1, n);
        }
    } else {
        only_one(windows, i, n);
    }
}

proof fn only_one(windows: Seq<Window>, i: int, n: int)
    requires
        0 <= i < windows.len(),
        0 <= n <= windows.len(),
        !shares(windows, i),
    ensures
        layout::windows_on(windows, windows[i].output, n) == if i < n {
            1nat
        } else {
            0
        },
    decreases n,
{
    if n > 0 {
        only_one(windows, i, n - 1);
        if n - 1 != i {
            assert(windows[n - 1].output != windows[i].output);
        }
    }
}

/// A new output takes the newest parked window; where none is parked, the newest of those that
/// share an output; and none only where no window is parked and no two share one.
pub proof fn new_outputs_take_the_newest_that_waits(windows: Seq<Window>, r: Option<usize>, k: int)
    requires
        layout::adopted(windows, r),
        0 <= k < windows.len(),
    ensures
        r matches Some(i) ==> i < windows.len(),
        windows[k].parked ==> (r matches Some(i) && windows[i as int].parked && windows[k].id
            <= windows[i as int].id),
        shares(windows, k) ==> r is Some,
        r matches Some(i) ==> windows[i as int].parked || shares(windows, i as int),
        r matches Some(i) ==> !windows[i as int].parked && shares(windows, k) ==> windows[k].id
            <= windows[i as int].id,
{
    counted_twice(windows, k);
    assert(layout::waits(windows, k, false) == windows[k].parked);
    assert(layout::waits(windows, k, true) == shares(windows, k));
    if let Some(i) = r {
        if i < windows.len() {
            counted_twice(windows, i as int);
        }
    }
}

/// A new output is what was asked for: its size at 60 Hz, its place and its scale, nothing drawn yet
/// and every byte of its frame there.
pub proof fn new_outputs_are_as_asked(
    n: OutputNode,
    id: u32,
    w: i32,
    h: i32,
    x: i32,
    y: i32,
    scale_micro: u32,
)
    requires
        layout::fresh_node(n, id, w, h, x, y, scale_micro),
        w > 0,
        h > 0,
    ensures
        n.id == id,
        n.pos.0 == x && n.pos.1 == y,
        n.mode matches Some(m) && m.w == w && m.h == h && m.refresh == 60_000,
        n.scale_micro == scale_micro,
        n.capture is None,
        n.frame_buffer@.len() == 4 * (w * h),
        n.frame_seq == 0 && !n.target_seeded && n.content_hold_until is None,
{
    assert(w * h >= 0) by (nonlinear_arith)
        requires
            w > 0,
            h > 0,
    ;
    assert(w * h * 4 == 4 * (w * h)) by (nonlinear_arith);
}

/// A display's geometry is its live capture's; without one its output's mode; and nothing for a
/// display that has no output.
pub proof fn geometry_is_what_runs(nodes: Seq<OutputNode>, i: int)
    requires
        0 <= i < nodes.len(),
        wayland::distinct_ids(nodes),
    ensures
        ({
            let g = lifecycle::geometry_of(nodes, nodes[i].id);
            &&& nodes[i].capture matches Some(c) ==> g.0 == c.settings.width && g.1
                == c.settings.height && g.2 == c.settings.scale_micro
            &&& nodes[i].capture is None ==> (nodes[i].mode matches Some(m) ==> g.0 == m.w && g.1
                == m.h && g.2 == nodes[i].scale_micro)
        }),
        forall|d: u32|
            (forall|j: int| 0 <= j < nodes.len() ==> (#[trigger] nodes[j]).id != d) ==> #[trigger]
            lifecycle::geometry_of(nodes, d) == (0i32, 0i32, 0u32),
{
    wayland::index_finds(nodes, nodes[i].id, 0);
    let at = wayland::index_of(nodes, nodes[i].id)->0;
    if at != i {
        assert(at < i ==> nodes[at].id != nodes[i].id);
        assert(i < at ==> nodes[i].id != nodes[at].id);
    }
    assert forall|d: u32|
        (forall|j: int| 0 <= j < nodes.len() ==> (#[trigger] nodes[j]).id != d) implies #[trigger]
    lifecycle::geometry_of(nodes, d) == (0i32, 0i32, 0u32) by {
        wayland::index_finds(nodes, d, 0);
    }
}

/// A capture follows its host exactly where the host declined and runs another size; an even size is
/// the next at or below.
pub proof fn captures_follow_a_host_that_declined(
    realized: bool,
    want: (i32, i32),
    current: Option<(i32, i32)>,
    v: i32,
)
    ensures
        lifecycle::to_follow(realized, want, current) is Some <==> !realized && current is Some
            && current->0 != want,
        lifecycle::to_follow(realized, want, current) matches Some(s) ==> Some(s) == current,
        lifecycle::even(v) % 2 == 0,
        lifecycle::even(v) <= v <= lifecycle::even(v) + 1,
{
}

/// A capture that restarts to follow its host asks for the size that the host kept, and otherwise
/// for what it had; it restarts only where that comes to another size than the one asked before.
pub proof fn restarts_ask_for_what_the_host_kept(
    c: Compositor,
    i: int,
    cap: WlCapture,
    kept: (i32, i32),
    want: (i32, i32),
)
    requires
        0 <= i < c.nodes@.len(),
        wayland::distinct_ids(c.nodes@),
        c.nodes@[i].capture == Some(cap),
    ensures
        ({
            let r = c.restart_for(c.nodes@[i].id, Some(kept), want);
            let h264 = cap.settings.output_mode == 1;
            &&& c.restart_for(c.nodes@[i].id, None, want) is None
            &&& r matches Some((s, k)) ==> {
                &&& k == kept
                &&& s.width == kept.0 && s.height == kept.1
                &&& s == (RustCaptureSettings { width: s.width, height: s.height, ..cap.settings })
            }
            &&& kept == want && (h264 ==> kept.0 % 2 == 0 && kept.1 % 2 == 0) ==> r is None
            &&& !h264 && kept != want ==> r is Some
            &&& h264 && (want.0 > kept.0 || want.1 > kept.1 || want.0 < kept.0 - 1 || want.1 < kept.1
                - 1) ==> r is Some
        }),
{
    wayland::index_finds(c.nodes@, c.nodes@[i].id, 0);
    let at = wayland::index_of(c.nodes@, c.nodes@[i].id)->0;
    if at != i {
        assert(at < i ==> c.nodes@[at].id != c.nodes@[i].id);
        assert(i < at ==> c.nodes@[i].id != c.nodes@[at].id);
    }
}

/// A display's layout request is taken once, with its readers; the requests of other displays stay
/// as they are.
pub proof fn requests_are_taken_once(
    pending: Seq<wayland::PendingHostLayout>,
    id: u32,
    k: int,
)
    requires
        0 <= k < pending.len(),
        forall|i: int, j: int|
            0 <= i < j < pending.len() ==> (#[trigger] pending[i]).display_id != (
            #[trigger] pending[j]).display_id,
    ensures
        pending[k].display_id == id ==> lifecycle::waiters_of(pending, id) == pending[k].waiters@,
        pending[k].display_id != id ==> lifecycle::requests_without(pending, id).contains(
            pending[k],
        ),
        lifecycle::requests_without(pending, id).len() == pending.len() - if exists|i: int|
            0 <= i < pending.len() && (#[trigger] pending[i]).display_id == id {
            1int
        } else {
            0
        },
        forall|i: int|
            0 <= i < lifecycle::requests_without(pending, id).len() ==> (
            #[trigger] lifecycle::requests_without(pending, id)[i]).display_id != id,
{
    request_finds(pending, id, 0);
    let left = lifecycle::requests_without(pending, id);
    match lifecycle::request_from(pending, id, 0) {
        None => {
            assert(left[k] == pending[k]);
        },
        Some(r) => {
            assert(left.len() == pending.len() - 1);
            if k < r {
                assert(left[k] == pending[k]);
            } else if k > r {
                assert(left[k - 1] == pending[k]);
            }
            assert forall|i: int| 0 <= i < left.len() implies (#[trigger] left[i]).display_id
                != id by {
                if i < r {
                    assert(left[i] == pending[i]);
                } else {
                    assert(left[i] == pending[i + 1]);
                    assert(pending[r].display_id != pending[i + 1].display_id);
                }
            }
        },
    }
}

proof fn request_finds(pending: Seq<wayland::PendingHostLayout>, id: u32, from: int)
    requires
        0 <= from <= pending.len(),
    ensures
        match lifecycle::request_from(pending, id, from) {
            Some(i) => from <= i < pending.len() && pending[i].display_id == id && forall|j: int|
                from <= j < i ==> (#[trigger] pending[j]).display_id != id,
            None => forall|j: int|
                from <= j < pending.len() ==> (#[trigger] pending[j]).display_id != id,
        },
    decreases pending.len() - from,
{
    if from < pending.len() && pending[from].display_id != id {
        request_finds(pending, id, from + 1);
    }
}

/// A capture that ended takes nothing with it but itself, its outcome and its request: its output
/// and the windows stay as they were.
pub proof fn stopping_keeps_the_output(before: Compositor, after: Compositor, i: int)
    requires
        0 <= i < before.nodes@.len(),
        wayland::distinct_ids(before.nodes@),
        lifecycle::capture_stopped(before, after, before.nodes@[i].id),
    ensures
        after.nodes@.len() == before.nodes@.len(),
        after.nodes@[i].capture is None,
        after.nodes@[i].id == before.nodes@[i].id,
        after.nodes@[i].pos == before.nodes@[i].pos,
        after.nodes@[i].mode == before.nodes@[i].mode,
        after.nodes@[i].scale_micro == before.nodes@[i].scale_micro,
        after.nodes@[i].frame_buffer == before.nodes@[i].frame_buffer,
        forall|j: int|
            0 <= j < before.nodes@.len() && j != i ==> #[trigger] after.nodes@[j]
                == before.nodes@[j],
        after.windows == before.windows,
        after.book.owners == before.book.owners,
        !after.book.alive@.contains(before.nodes@[i].id),
{
    let nodes = before.nodes@;
    wayland::index_finds(nodes, nodes[i].id, 0);
    let at = wayland::index_of(nodes, nodes[i].id)->0;
    if at != i {
        assert(at < i ==> nodes[at].id != nodes[i].id);
        assert(i < at ==> nodes[i].id != nodes[at].id);
    }
}

/// When the host goes, every capture ends and says why; the outputs and the windows stay.
pub proof fn losing_the_host_ends_every_capture(before: Compositor, after: Compositor, i: int)
    requires
        lifecycle::host_lost(before, after),
        0 <= i < before.nodes@.len(),
    ensures
        after.host_outputs is None,
        after.host_layout_pending@.len() == 0,
        after.nodes@.len() == before.nodes@.len(),
        after.nodes@[i].capture is None,
        after.nodes@[i].id == before.nodes@[i].id,
        after.nodes@[i].pos == before.nodes@[i].pos,
        after.nodes@[i].mode == before.nodes@[i].mode,
        before.nodes@[i].capture is Some ==> after.book.error_of(before.nodes@[i].id) is Some
            && !after.book.alive@.contains(before.nodes@[i].id),
        after.windows == before.windows,
        after.book.owners == before.book.owners,
{
    assert(lifecycle::uncaptured(before.nodes@[i], after.nodes@[i]));
    if before.nodes@[i].capture is Some {
        assert(wayland::captured(before.nodes@, before.nodes@[i].id));
    }
}

/// A keyframe that is asked for is asked of the thread that encodes: of the readback's where one is
/// up, else of the session; and nothing else changes.
pub proof fn keyframes_are_asked_where_frames_are_made(c: WlCapture)
    ensures
        c.readback ==> c.asked_idr().controls.force_idr && c.asked_idr().pending_force_idr
            == c.pending_force_idr,
        !c.readback ==> c.asked_idr().pending_force_idr && c.asked_idr().controls == c.controls,
        c.asked_idr().settings == c.settings,
        c.asked_idr().session == c.session,
        c.asked_idr().controls.rate_dirty == c.controls.rate_dirty,
        c.asked_idr().controls.tunables == c.controls.tunables,
        c.asked_idr().recording_sink == c.recording_sink,
        c.asked_idr().frame_counter == c.frame_counter,
{
}

/// An output's name ends in its number, counted from one, so that no two outputs share one; its
/// serial number is the same in three digits at least.
pub proof fn outputs_are_named_by_number(a: u32, b: u32)
    requires
        a < u32::MAX,
        b < u32::MAX,
    ensures
        text::opens_with(layout::output_name(a), "HEADLESS-"@),
        text::number(layout::output_name(a).skip("HEADLESS-"@.len() as int), 10) == Some(
            (a + 1) as nat,
        ),
        layout::output_name(a) == layout::output_name(b) ==> a == b,
        text::number(layout::padded(a as nat), 10) == Some(a as nat),
        layout::padded(a as nat).len() >= 3,
{
    let head = "HEADLESS-"@;
    text::decimals_read_back((a + 1) as nat);
    text::decimals_read_back((b + 1) as nat);
    let (na, nb) = (layout::output_name(a), layout::output_name(b));
    assert(na.skip(head.len() as int) =~= text::decimal((a + 1) as nat));
    assert(nb.skip(head.len() as int) =~= text::decimal((b + 1) as nat));
    assert(na.take(head.len() as int) =~= head);
    let d = text::decimal(a as nat);
    text::decimals_read_back(a as nat);
    reveal_strlit("00");
    reveal_strlit("0");
    let p = layout::padded(a as nat);
    if a < 10 {
        assert(p =~= seq!['0', '0'] + d);
        leading_zero(seq!['0'] + d);
        leading_zero(d);
        assert(p =~= seq!['0'] + (seq!['0'] + d));
    } else if a < 100 {
        assert(p =~= seq!['0'] + d);
        leading_zero(d);
        assert(text::decimal(a as nat / 10).len() > 0) by {
            text::decimals_read_back(a as nat / 10);
        }
    } else {
        assert(p =~= d);
        let (t, u) = (a as nat / 10, a as nat / 100);
        text::decimals_read_back(u);
        assert(t / 10 == u);
        assert(text::decimal(t) == text::decimal(u).push(text::digit_char(t % 10)));
        assert(d == text::decimal(t).push(text::digit_char(a as nat % 10)));
    }
}

proof fn leading_zero(s: Seq<char>)
    ensures
        text::number(seq!['0'] + s, 10) == text::number(s, 10),
    decreases s.len(),
{
    let t = seq!['0'] + s;
    reveal_with_fuel(text::number, 2);
    if s.len() == 0 {
        assert(t.drop_last() =~= Seq::<char>::empty());
        assert(t.last() == '0');
    } else {
        assert(t.drop_last() =~= seq!['0'] + s.drop_last());
        assert(t.last() == s.last());
        leading_zero(s.drop_last());
    }
}

/// The captures of a host that goes are all of them, in the order of their outputs.
pub proof fn every_capture_is_handed_back(nodes: Seq<OutputNode>, n: int, k: int)
    requires
        0 <= k < n <= nodes.len(),
    ensures
        nodes[k].capture matches Some(c) ==> lifecycle::captures_of(nodes, n).contains(c),
    decreases n,
{
    if nodes[k].capture is Some {
        let c = nodes[k].capture->0;
        let all = lifecycle::captures_of(nodes, n);
        let fewer = lifecycle::captures_of(nodes, n - 1);
        if k == n - 1 {
            assert(all[fewer.len() as int] == c);
        } else {
            every_capture_is_handed_back(nodes, n - 1, k);
            let at = choose|at: int| 0 <= at < fewer.len() && fewer[at] == c;
            assert(all[at] == c);
        }
    }
}

} // verus!
