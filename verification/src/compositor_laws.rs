//! What every operation on the compositor keeps: the displays that count as alive are those that
//! are captured, the outputs stay apart under distinct ids, the primary stays, and no window is left
//! on an output that is gone.

use vstd::prelude::*;
use crate::command;
use crate::layout;
use crate::lifecycle;
use crate::wayland;
use crate::wayland::{Compositor, OutputNode, WlCapture, Window};

verus! {

/// The displays that count as alive are those that are captured.
pub open spec fn liveness(c: Compositor) -> bool {
    forall|d: u32| #[trigger] c.book.alive@.contains(d) == wayland::captured(c.nodes@, d)
}

/// Every window is tagged for an output that exists.
pub open spec fn homed(windows: Seq<Window>, nodes: Seq<OutputNode>) -> bool {
    forall|k: int|
        0 <= k < windows.len() ==> exists_output(nodes, (#[trigger] windows[k]).output)
}

/// An output with this id exists.
pub open spec fn exists_output(nodes: Seq<OutputNode>, id: u32) -> bool {
    exists|i: int| 0 <= i < nodes.len() && (#[trigger] nodes[i]).id == id
}

proof fn index_means_existence(nodes: Seq<OutputNode>, id: u32)
    ensures
        exists_output(nodes, id) <==> wayland::index_of(nodes, id) is Some,
{
    wayland::index_finds(nodes, id, 0);
    match wayland::index_of(nodes, id) {
        Some(i) => {
            assert(nodes[i].id == id);
        },
        None => {},
    }
}

/// Changing one output's capture changes whether that display is captured, and no other's.
proof fn one_output_changes(before: Seq<OutputNode>, after: Seq<OutputNode>, i: int, d: u32)
    requires
        0 <= i < before.len(),
        after == before.update(i, after[i]),
        after[i].id == before[i].id,
        wayland::distinct_ids(before),
    ensures
        d == before[i].id ==> wayland::captured(after, d) == (after[i].capture is Some),
        d != before[i].id ==> wayland::captured(after, d) == wayland::captured(before, d),
        wayland::distinct_ids(after),
{
    if d == before[i].id {
        if wayland::captured(after, d) {
            let j = choose|j: int|
                0 <= j < after.len() && (#[trigger] after[j]).id == d && after[j].capture is Some;
            assert(before[j].id == d);
        }
        assert(after[i].id == d);
    } else {
        if wayland::captured(after, d) {
            let j = choose|j: int|
                0 <= j < after.len() && (#[trigger] after[j]).id == d && after[j].capture is Some;
            assert(before[j].id == d);
        }
        if wayland::captured(before, d) {
            let j = choose|j: int|
                0 <= j < before.len() && (#[trigger] before[j]).id == d && before[j].capture is Some;
            assert(after[j].id == d);
        }
    }
    assert forall|a: int, b: int| 0 <= a < b < after.len() implies (#[trigger] after[a]).id != (
    #[trigger] after[b]).id by {
        assert(before[a].id != before[b].id);
    }
}

/// Stopping a display's capture keeps the alive displays those that are captured.
pub proof fn stopping_keeps_the_books(before: Compositor, after: Compositor, id: u32)
    requires
        wayland::distinct_ids(before.nodes@),
        liveness(before),
        lifecycle::capture_stopped(before, after, id),
    ensures
        liveness(after),
        wayland::distinct_ids(after.nodes@),
{
    wayland::index_finds(before.nodes@, id, 0);
    match wayland::index_of(before.nodes@, id) {
        Some(i) => {
            one_output_changes(before.nodes@, after.nodes@, i, id);
            assert forall|d: u32| #[trigger]
                after.book.alive@.contains(d) == wayland::captured(after.nodes@, d) by {
                one_output_changes(before.nodes@, after.nodes@, i, d);
                assert(before.book.alive@.contains(d) == wayland::captured(before.nodes@, d));
            }
        },
        None => {},
    }
}

/// A start, from where it takes the old capture out to where it puts the new one in, keeps the alive
/// displays those that are captured.
pub proof fn starting_keeps_the_books(
    before: Compositor,
    ready: Compositor,
    after: Compositor,
    id: u32,
)
    requires
        wayland::distinct_ids(before.nodes@),
        liveness(before),
        wayland::index_of(before.nodes@, id) is Some,
        ({
            let i = wayland::index_of(before.nodes@, id)->0;
            &&& ready.nodes@ == before.nodes@.update(i, ready.nodes@[i])
            &&& lifecycle::uncaptured(before.nodes@[i], ready.nodes@[i])
            &&& ready.book.alive == before.book.alive
            &&& after.nodes@ == ready.nodes@.update(i, after.nodes@[i])
            &&& after.nodes@[i].id == ready.nodes@[i].id
            &&& after.nodes@[i].capture is Some
            &&& after.book.alive@ == ready.book.alive@.insert(id)
        }),
    ensures
        liveness(after),
        wayland::distinct_ids(after.nodes@),
{
    wayland::index_finds(before.nodes@, id, 0);
    let i = wayland::index_of(before.nodes@, id)->0;
    assert(after.nodes@ =~= before.nodes@.update(i, after.nodes@[i]));
    one_output_changes(before.nodes@, after.nodes@, i, id);
    assert forall|d: u32| #[trigger]
        after.book.alive@.contains(d) == wayland::captured(after.nodes@, d) by {
        one_output_changes(before.nodes@, after.nodes@, i, d);
        assert(before.book.alive@.contains(d) == wayland::captured(before.nodes@, d));
    }
}

/// A live change of a capture (a rate, tunables, a keyframe request) keeps the alive displays those
/// that are captured.
pub proof fn live_changes_keep_the_books(
    before: Compositor,
    after: Compositor,
    id: u32,
    change: spec_fn(WlCapture) -> WlCapture,
)
    requires
        wayland::distinct_ids(before.nodes@),
        liveness(before),
        command::one_capture(before, after, id, change),
        after.book == before.book,
    ensures
        liveness(after),
        wayland::distinct_ids(after.nodes@),
        before.laid_out() ==> after.laid_out(),
{
    wayland::index_finds(before.nodes@, id, 0);
    match wayland::index_of(before.nodes@, id) {
        Some(i) => {
            assert(after.nodes@ =~= before.nodes@.update(i, after.nodes@[i]));
            one_output_changes(before.nodes@, after.nodes@, i, id);
            assert forall|d: u32| #[trigger]
                after.book.alive@.contains(d) == wayland::captured(after.nodes@, d) by {
                one_output_changes(before.nodes@, after.nodes@, i, d);
                assert(before.book.alive@.contains(d) == wayland::captured(before.nodes@, d));
                if d == id && wayland::captured(before.nodes@, d) {
                    let j = choose|j: int|
                        0 <= j < before.nodes@.len() && (#[trigger] before.nodes@[j]).id == d
                            && before.nodes@[j].capture is Some;
                    assert(j == i);
                }
            }
            if before.laid_out() {
                same_places_stay_apart(before.nodes@, after.nodes@);
            }
        },
        None => {},
    }
}

/// Outputs that keep their places, modes and scales stay apart.
proof fn same_places_stay_apart(before: Seq<OutputNode>, after: Seq<OutputNode>)
    requires
        before.len() == after.len(),
        forall|i: int|
            0 <= i < before.len() ==> (#[trigger] after[i]).pos == before[i].pos && after[i].mode
                == before[i].mode && after[i].scale_micro == before[i].scale_micro,
        layout::all_apart(before),
        layout::all_scaled(before),
    ensures
        layout::all_apart(after),
        layout::all_scaled(after),
{
    assert forall|i: int| 0 <= i < after.len() implies (#[trigger] after[i]).scale_micro > 0 by {
        assert(before[i].scale_micro > 0);
    }
    assert forall|i: int, j: int|
        0 <= i < after.len() && 0 <= j < after.len() && i != j implies layout::apart(
        #[trigger] after[i],
        #[trigger] after[j],
    ) by {
        assert(layout::apart(before[i], before[j]));
    }
}

/// Destroying an output keeps the alive displays those that are captured, the rest of the layout,
/// the primary, and a home for every window.
pub proof fn destroying_keeps_the_layout(
    before: Compositor,
    after: Compositor,
    id: u32,
    covers: Seq<bool>,
    primary: (i32, i32),
    parking: (i32, i32),
)
    requires
        id != 0,
        wayland::index_of(before.nodes@, id) is Some,
        wayland::index_of(before.nodes@, 0) is Some,
        wayland::distinct_ids(before.nodes@),
        after.nodes@ == before.nodes@.remove(wayland::index_of(before.nodes@, id)->0),
        after.book.alive@ == before.book.alive@.remove(id),
        after.windows@.len() == before.windows@.len(),
        forall|k: int|
            0 <= k < before.windows@.len() ==> #[trigger] after.windows@[k]
                == Compositor::relocated(before.windows@, id, covers, primary, parking, k),
    ensures
        wayland::distinct_ids(after.nodes@),
        wayland::index_of(after.nodes@, 0) is Some,
        wayland::index_of(after.nodes@, id) is None,
        liveness(before) ==> liveness(after),
        before.laid_out() ==> after.laid_out(),
        homed(before.windows@, before.nodes@) ==> homed(after.windows@, after.nodes@),
{
    let a = before.nodes@;
    let b = after.nodes@;
    wayland::index_finds(a, id, 0);
    wayland::index_finds(a, 0, 0);
    let r = wayland::index_of(a, id)->0;
    let p = wayland::index_of(a, 0)->0;
    assert forall|i: int, j: int| 0 <= i < j < b.len() implies (#[trigger] b[i]).id != (
    #[trigger] b[j]).id by {
        let (x, y) = (old_place(i, r), old_place(j, r));
        assert(b[i] == a[x] && b[j] == a[y]);
    }
    assert forall|d: u32| d != id implies exists_output(b, d) == exists_output(a, d) by {
        existence_survives(a, r, d);
    }
    assert(!exists_output(b, id)) by {
        if exists_output(b, id) {
            let j = choose|j: int| 0 <= j < b.len() && (#[trigger] b[j]).id == id;
            assert(a[old_place(j, r)].id == id);
        }
    }
    index_means_existence(a, 0);
    index_means_existence(b, 0);
    index_means_existence(b, id);
    if liveness(before) {
        assert forall|d: u32| #[trigger]
            after.book.alive@.contains(d) == wayland::captured(b, d) by {
            capture_survives(a, r, d);
            assert(before.book.alive@.contains(d) == wayland::captured(a, d));
        }
    }
    if before.laid_out() {
        assert forall|i: int| 0 <= i < b.len() implies (#[trigger] b[i]).scale_micro > 0 by {
            assert(b[i] == a[old_place(i, r)]);
        }
        assert forall|i: int, j: int|
            0 <= i < b.len() && 0 <= j < b.len() && i != j implies layout::apart(
            #[trigger] b[i],
            #[trigger] b[j],
        ) by {
            assert(b[i] == a[old_place(i, r)] && b[j] == a[old_place(j, r)]);
        }
    }
    if homed(before.windows@, a) {
        assert forall|k: int| 0 <= k < after.windows@.len() implies exists_output(
            b,
            (#[trigger] after.windows@[k]).output,
        ) by {
            let w = before.windows@[k];
            assert(exists_output(a, w.output));
            assert(exists_output(a, 0));
        }
    }
}

/// Where a node that is at `i` once the `r`th is gone was before.
spec fn old_place(i: int, r: int) -> int {
    if i < r {
        i
    } else {
        i + 1
    }
}

/// Where a node other than the `r`th is once that one is gone.
spec fn new_place(i: int, r: int) -> int {
    if i < r {
        i
    } else {
        i - 1
    }
}

proof fn existence_survives(a: Seq<OutputNode>, r: int, d: u32)
    requires
        0 <= r < a.len(),
        a[r].id != d,
    ensures
        exists_output(a.remove(r), d) == exists_output(a, d),
{
    let b = a.remove(r);
    if exists_output(a, d) {
        let j = choose|j: int| 0 <= j < a.len() && (#[trigger] a[j]).id == d;
        assert(b[new_place(j, r)].id == d);
    }
    if exists_output(b, d) {
        let j = choose|j: int| 0 <= j < b.len() && (#[trigger] b[j]).id == d;
        assert(a[old_place(j, r)].id == d);
    }
}

proof fn capture_survives(a: Seq<OutputNode>, r: int, d: u32)
    requires
        0 <= r < a.len(),
        wayland::distinct_ids(a),
    ensures
        wayland::captured(a.remove(r), d) == (d != a[r].id && wayland::captured(a, d)),
{
    let b = a.remove(r);
    if wayland::captured(b, d) {
        let j = choose|j: int|
            0 <= j < b.len() && (#[trigger] b[j]).id == d && b[j].capture is Some;
        assert(a[old_place(j, r)].id == d);
    }
    if d != a[r].id && wayland::captured(a, d) {
        let j = choose|j: int|
            0 <= j < a.len() && (#[trigger] a[j]).id == d && a[j].capture is Some;
        assert(b[new_place(j, r)].id == d);
    }
}

/// Creating an output keeps the alive displays those that are captured, the primary, and a home for
/// every window: the one that was handed to it has it there.
pub proof fn creating_keeps_the_layout(
    before: Compositor,
    after: Compositor,
    id: u32,
    adopt: Option<usize>,
)
    requires
        wayland::index_of(before.nodes@, id) is None,
        after.nodes@.len() > 0,
        ({
            let node = after.nodes@.last();
            &&& after.nodes@ == before.nodes@.push(node)
            &&& node.id == id
            &&& node.capture is None
            &&& adopt matches Some(i) ==> i < before.windows@.len()
            &&& after.windows@ == match adopt {
                Some(i) => before.windows@.update(
                    i as int,
                    layout::placed(before.windows@[i as int], node),
                ),
                None => before.windows@,
            }
        }),
        after.book == before.book,
    ensures
        liveness(before) ==> liveness(after),
        wayland::index_of(before.nodes@, 0) is Some ==> wayland::index_of(after.nodes@, 0) is Some,
        homed(before.windows@, before.nodes@) ==> homed(after.windows@, after.nodes@),
{
    let a = before.nodes@;
    let b = after.nodes@;
    assert forall|d: u32| exists_output(a, d) implies exists_output(b, d) by {
        let j = choose|j: int| 0 <= j < a.len() && (#[trigger] a[j]).id == d;
        assert(b[j].id == d);
    }
    assert(b[a.len() as int].id == id);
    index_means_existence(a, 0);
    index_means_existence(b, 0);
    assert forall|d: u32| wayland::captured(a, d) == wayland::captured(b, d) by {
        if wayland::captured(a, d) {
            let j = choose|j: int|
                0 <= j < a.len() && (#[trigger] a[j]).id == d && a[j].capture is Some;
            assert(b[j].id == d);
        }
        if wayland::captured(b, d) {
            let j = choose|j: int|
                0 <= j < b.len() && (#[trigger] b[j]).id == d && b[j].capture is Some;
            assert(a[j].id == d);
        }
    }
    if homed(before.windows@, a) {
        assert forall|k: int| 0 <= k < after.windows@.len() implies exists_output(
            b,
            (#[trigger] after.windows@[k]).output,
        ) by {
            assert(exists_output(a, before.windows@[k].output));
        }
    }
}

/// A window that is moved to an output has its home there.
pub proof fn moved_windows_are_homed(
    windows: Seq<Window>,
    nodes: Seq<OutputNode>,
    w: int,
    n: int,
)
    requires
        0 <= w < windows.len(),
        0 <= n < nodes.len(),
        homed(windows, nodes),
    ensures
        homed(windows.update(w, layout::placed(windows[w], nodes[n])), nodes),
{
    let after = windows.update(w, layout::placed(windows[w], nodes[n]));
    assert forall|k: int| 0 <= k < after.len() implies exists_output(
        nodes,
        (#[trigger] after[k]).output,
    ) by {
        if k == w {
            assert(nodes[n].id == after[k].output);
        } else {
            assert(after[k] == windows[k]);
        }
    }
}

/// Losing the host compositor keeps the alive displays those that are captured, which are none of
/// its own, and the layout as it was.
pub proof fn losing_the_host_keeps_the_books(before: Compositor, after: Compositor)
    requires
        liveness(before),
        lifecycle::host_lost(before, after),
    ensures
        liveness(after),
        forall|d: u32| !(#[trigger] after.book.alive@.contains(d)),
        before.laid_out() ==> after.laid_out(),
{
    let a = before.nodes@;
    let b = after.nodes@;
    assert forall|d: u32| !wayland::captured(b, d) by {
        if wayland::captured(b, d) {
            let j = choose|j: int|
                0 <= j < b.len() && (#[trigger] b[j]).id == d && b[j].capture is Some;
            assert(lifecycle::uncaptured(a[j], b[j]));
        }
    }
    assert forall|d: u32| !(#[trigger] after.book.alive@.contains(d)) by {
        assert(before.book.alive@.contains(d) == wayland::captured(a, d));
    }
    if before.laid_out() {
        assert forall|i: int| 0 <= i < a.len() implies (#[trigger] b[i]).pos == a[i].pos && b[i].mode
            == a[i].mode && b[i].scale_micro == a[i].scale_micro by {
            assert(lifecycle::uncaptured(a[i], b[i]));
        }
        same_places_stay_apart(a, b);
        assert forall|i: int, j: int| 0 <= i < j < b.len() implies (#[trigger] b[i]).id != (
        #[trigger] b[j]).id by {
            assert(lifecycle::uncaptured(a[i], b[i]) && lifecycle::uncaptured(a[j], b[j]));
            assert(a[i].id != a[j].id);
        }
    }
}

} // verus!
