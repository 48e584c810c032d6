//! What a tick does for the stream, and input for its target: a frame is drawn when it is due and
//! wanted, a buffer is handed to one side at a time, and what is on top is what is hit.

use vstd::prelude::*;
use crate::clock::Instant;
use crate::command_laws;
use crate::encode_loop;
use crate::encode_loop::Recovery;
use crate::encoders::{Codec, EncodedStripe};
use crate::input;
use crate::input::{Focus, Layer, LayerSurface};
use crate::pace;
use crate::pace::{FramePace, TickTrigger};
use crate::pool::WlFramePool;
use crate::recording_sink;
use crate::recording_sink::{FrameWrite, RecordingSink, Tap, WriteStep};
use crate::render;
use crate::render::{CopySession, Gate, HostFrame, Retained};
use crate::scene;
use crate::scene::{CursorIcon, CursorSprite, Element, SceneWindow};
use crate::wayland::{OutputNode, WlCapture};

verus! {

/// A tick comes too soon only within nine tenths of its frame's time; a first tick never does, and
/// one a whole frame's time after the last never does.
pub proof fn ticks_wait_for_their_frame(last: Instant, fps_milli: u32, now: Instant)
    requires
        last.nanos <= now.nanos,
        fps_milli >= 1000,
    ensures
        !render::too_soon(None, fps_milli, now),
        render::too_soon(Some(last), fps_milli, now) <==> 10 * ((now.nanos - last.nanos) * fps_milli)
            < 9 * 1_000_000_000_000,
        (now.nanos - last.nanos) * fps_milli >= 1_000_000_000_000 ==> !render::too_soon(
            Some(last),
            fps_milli,
            now,
        ),
{
}

/// A tick renders where somebody wants it, it is due (a screenshot does not wait), the output has a
/// size and, where a pool is fed, a buffer is free: never into a buffer that the encoder holds. It
/// renders at the size of the capture, notes the time, and passes on every keyframe request.
pub proof fn ticks_render_when_due_and_wanted(
    was: OutputNode,
    now_node: OutputNode,
    pool: Option<WlFramePool>,
    left: Option<WlFramePool>,
    screenshot: bool,
    copy_wanted: bool,
    host: bool,
    covers: bool,
    now: Instant,
    gate: Gate,
)
    requires
        render::began(
            was,
            now_node,
            pool,
            left,
            screenshot,
            copy_wanted,
            host,
            covers,
            now,
            gate,
        ),
    ensures
        was.capture is None && !screenshot && !copy_wanted ==> gate is Idle,
        gate is Idle ==> now_node == was && left == pool,
        was.capture matches Some(c) ==> c.settings.width > 0 && c.settings.height > 0 && (screenshot
            || !render::too_soon(c.last_tick, c.settings.target_fps_milli, now)) ==> gate !is Idle,
        gate is Busy ==> {
            &&& was.capture is Some && pool is Some
            &&& pool->0.slot is Some || pool->0.free@.len() == 0
            &&& left is Some && left->0.free@ == pool->0.free@ && left->0.slot == pool->0.slot
        },
        gate matches Gate::Run(t) ==> {
            &&& was.capture matches Some(c) ==> t.width == c.settings.width && t.height
                == c.settings.height
            &&& was.capture is None ==> (was.mode matches Some(m) ==> t.width == m.w && t.height
                == m.h)
            &&& t.width > 0 && t.height > 0
            &&& now_node.capture is Some <==> was.capture is Some
            &&& now_node.capture matches Some(c) ==> c.last_tick == Some(now)
            &&& was.capture matches Some(c) ==> {
                &&& c.pending_force_idr ==> t.requested_idr
                &&& c.pending_force_idr || c.controls.force_idr ==> t.want_idr
                &&& c.needs_full_render ==> t.needs_full
            }
            &&& was.capture is None && !was.target_seeded ==> t.needs_full
            &&& t.slot matches Some(b) ==> {
                &&& pool is Some && pool->0.slot is None && pool->0.free@.len() > 0
                &&& b == pool->0.free@[pool->0.free@.len() - 1]
                &&& left is Some && left->0.free@.len() == pool->0.free@.len() - 1
                &&& forall|i: int|
                    0 <= i < left->0.free@.len() ==> #[trigger] left->0.free@[i] == pool->0.free@[i]
            }
            &&& t.hold ==> t.slot is None
            &&& t.hold ==> !host && !covers && (was.content_hold_until matches Some(u) && now.nanos
                < u.nanos)
        },
        gate !is Idle ==> now_node.frame_buffer@.len() >= was.frame_buffer@.len(),
{
}

/// Frames are held only for a client that has not answered yet: never past the wait's end, never
/// once one covers the output, and never for a host.
pub proof fn frames_are_held_for_a_client(until: Instant, host: bool, covers: bool, now: Instant)
    ensures
        render::held(Some(until), host, covers, now) <==> !host && !covers && now.nanos < until.nanos,
        !render::held(None, host, covers, now),
{
}

/// A recorder that connected gets a keyframe, and is counted once.
pub proof fn recorders_get_a_keyframe(c: WlCapture, k: RecordingSink)
    requires
        c.recording_sink == Some(k),
    ensures
        k.client_connected ==> {
            let after = render::with_recorder(c);
            &&& after.readback ==> after.controls.force_idr
            &&& !after.readback ==> after.pending_force_idr
            &&& after.recording_sink matches Some(s) && !s.client_connected && s.clients == k.clients
        },
        !k.client_connected ==> render::with_recorder(c) == c,
{
}

/// A retained host frame is used by whoever can read it: a software one by software, one on the GPU
/// by the session, one with neither by both.
pub proof fn host_frames_go_to_who_can_read_them(zero_copy: bool)
    ensures
        render::retained(Some(HostFrame::Cpu), zero_copy) == Retained::Used <==> !zero_copy,
        render::retained(Some(HostFrame::Gpu), zero_copy) == Retained::Used <==> zero_copy,
        render::retained(Some(HostFrame::Bare), zero_copy) == Retained::Used,
        render::retained(None, zero_copy) == Retained::Missing,
        zero_copy ==> render::retained(Some(HostFrame::Cpu), zero_copy) == Retained::CpuFrame,
        !zero_copy ==> render::retained(Some(HostFrame::Gpu), zero_copy) == Retained::GpuFrame,
{
}

/// A buffer is as old as the renders since it was drawn, and counts as never drawn where it was not.
pub proof fn buffers_age_by_renders(cap: WlCapture, id: int)
    requires
        0 <= id < cap.pool_last_render@.len(),
        cap.pool_last_render@[id] <= cap.render_seq,
    ensures
        cap.pool_last_render@[id] == 0 <==> render::buffer_age(cap, id) == 0,
        cap.pool_last_render@[id] > 0 ==> cap.pool_last_render@[id] + render::buffer_age(cap, id)
            == cap.render_seq + 1,
{
}

/// A render on the GPU that failed leaves the whole to be drawn again; damage makes every buffer
/// stale but the one drawn; and only what a buffer lacks is read back.
pub proof fn gpu_renders_are_accounted_for(
    before: WlCapture,
    after: WlCapture,
    ok: bool,
    damaged: bool,
    slot: Option<usize>,
    readback: bool,
    other: int,
)
    requires
        render::gpu_drawn(before, after, ok, damaged, slot, readback),
        slot matches Some(id) ==> id < before.pool_content_gen@.len() && other != id,
        0 <= other < before.pool_content_gen@.len(),
        before.content_gen < u64::MAX,
    ensures
        before.needs_full_render && !ok ==> after.needs_full_render,
        ok ==> !after.needs_full_render,
        damaged ==> after.content_gen != before.content_gen,
        !damaged ==> after.content_gen == before.content_gen,
        after.pool_content_gen@[other] == before.pool_content_gen@[other],
        slot matches Some(id) ==> ok ==> after.pool_content_gen@[id as int] == after.content_gen,
        slot matches Some(id) ==> ok ==> (!readback <==> before.pool_content_gen@[id as int]
            == after.content_gen),
        !ok || slot is None ==> !readback && after.pool_content_gen@ == before.pool_content_gen@,
        after.settings == before.settings && after.frame_counter == before.frame_counter,
{
}

/// Frames are numbered one after another, over again past the last number.
pub proof fn frames_are_numbered_in_turn(n: u16)
    ensures
        n < 65_535 ==> render::next_frame(n) == n + 1,
        n == 65_535 ==> render::next_frame(n) == 0,
        render::next_frame(n) != n,
{
}

/// A session is kept through fewer than thirty failures in a row, and through any number with a
/// success between; at the thirtieth it is rebuilt, and given up where it had been rebuilt before.
pub proof fn sessions_are_given_a_second_chance(streak: u32, rebuilt: bool)
    requires
        streak < 30,
    ensures
        ({
            let (next, due) = encode_loop::failed_again(streak, rebuilt);
            &&& streak < 29 ==> due == Recovery::Keep && next == streak + 1
            &&& streak == 29 && !rebuilt ==> due == Recovery::Rebuild && next == 0
            &&& streak == 29 && rebuilt ==> due == Recovery::Demote && next == 0
        }),
{
}

/// A zero-copy encode that gave bytes clears the failures and the rebuild; one that failed counts;
/// a frame that was not sent counts as neither. A session is let go only where it is rebuilt or
/// given up.
pub proof fn zero_copy_encodes_are_counted(
    c: WlCapture,
    data: Option<Result<Vec<u8>, ()>>,
    requested: bool,
    out: bool,
)
    requires
        c.hw_error_streak < 30,
    ensures
        ({
            let (after, due) = c.zero_copied(data, requested, out);
            &&& (data is Some && data->0 is Ok) ==> after.hw_error_streak == 0 && !after.hw_rebuilt
                && due == Recovery::Keep
            &&& (data is Some && data->0 is Err) && c.hw_error_streak < 29 ==> after.hw_error_streak
                == c.hw_error_streak + 1 && due == Recovery::Keep && after.hw_rebuilt == c.hw_rebuilt
            &&& (data is Some && data->0 is Err) && c.hw_error_streak == 29 ==> due
                != Recovery::Keep && (due == Recovery::Demote <==> c.hw_rebuilt)
            &&& data is None ==> after.hw_error_streak == c.hw_error_streak && after.hw_rebuilt
                == c.hw_rebuilt && due == Recovery::Keep
            &&& due == Recovery::Keep ==> after.session == c.session
            &&& due != Recovery::Keep ==> after.session is None
            &&& after.pending_force_idr <==> requested && !out
            &&& after.settings == c.settings && after.recording_sink == c.recording_sink
            &&& after.frame_counter != c.frame_counter
        }),
{
}

/// A capture whose session is given up has a readback path that starts from a keyframe, where
/// somebody takes the frames; its settings and its numbering go on.
pub proof fn demoted_captures_go_on(before: WlCapture, after: WlCapture)
    requires
        render::demoted(before, after),
    ensures
        after.session is None,
        after.settings == before.settings && after.frame_counter == before.frame_counter,
        before.delivers ==> after.readback && after.controls.force_idr,
        !before.delivers ==> after.pending_force_idr || after.controls.force_idr,
        before.delivers ==> after.controls.bitrate_kbps == before.settings.video_bitrate_kbps,
{
}

/// An encode thread that died is replaced from a keyframe, where somebody takes the frames.
pub proof fn dead_threads_are_replaced(before: WlCapture, after: WlCapture)
    requires
        before.revived(after),
    ensures
        after.settings == before.settings && after.frame_counter == before.frame_counter,
        before.delivers ==> after.readback && after.controls.force_idr,
        !before.delivers ==> !after.readback && after.pending_force_idr,
{
}

/// A session that copies an output gets its frame where one waits and something changed, and its
/// first in any case; never one of another output.
pub proof fn copies_are_filled_from_their_output(s: CopySession, output: u32, damaged: bool)
    ensures
        s.served(output, damaged) <==> s.pending && s.output == Some(output) && (damaged
            || !s.delivered_once),
{
}

proof fn served_before(sessions: Seq<CopySession>, output: u32, damaged: bool, n: int)
    requires
        0 <= n <= sessions.len() <= usize::MAX,
    ensures
        forall|i: int|
            0 <= i < render::served_upto(sessions, output, damaged, n).len() ==> #[trigger]
            render::served_upto(sessions, output, damaged, n)[i] < n,
    decreases n,
{
    if n > 0 {
        served_before(sessions, output, damaged, n - 1);
        let all = render::served_upto(sessions, output, damaged, n);
        let fewer = render::served_upto(sessions, output, damaged, n - 1);
        assert forall|i: int| 0 <= i < all.len() implies #[trigger] all[i] < n by {
            if i < fewer.len() {
                assert(all[i] == fewer[i]);
            }
        }
    }
}

/// Every session that is to be served is, once and in order, and no other.
pub proof fn every_waiting_copy_is_filled(
    sessions: Seq<CopySession>,
    output: u32,
    damaged: bool,
    n: int,
    k: usize,
)
    requires
        0 <= n <= sessions.len() <= usize::MAX,
    ensures
        render::served_upto(sessions, output, damaged, n).contains(k) <==> k < n && sessions[k as int]
            .pending && sessions[k as int].output == Some(output) && (damaged
            || !sessions[k as int].delivered_once),
        forall|i: int, j: int|
            0 <= i < j < render::served_upto(sessions, output, damaged, n).len() ==> #[trigger]
            render::served_upto(sessions, output, damaged, n)[i] < #[trigger] render::served_upto(
                sessions,
                output,
                damaged,
                n,
            )[j],
    decreases n,
{
    if n > 0 {
        every_waiting_copy_is_filled(sessions, output, damaged, n - 1, k);
        served_before(sessions, output, damaged, n - 1);
        let all = render::served_upto(sessions, output, damaged, n);
        let fewer = render::served_upto(sessions, output, damaged, n - 1);
        if sessions[n - 1].served(output, damaged) {
            assert(all == fewer.push((n - 1) as usize));
            assert(all[fewer.len() as int] == n - 1);
            if fewer.contains(k) {
                let at = choose|at: int| 0 <= at < fewer.len() && fewer[at] == k;
                assert(all[at] == k);
            }
            if all.contains(k) {
                let at = choose|at: int| 0 <= at < all.len() && all[at] == k;
                if at < fewer.len() {
                    assert(fewer[at] == k);
                }
            }
        }
    }
}

/// A key whose state is zero goes up, any other goes down.
pub proof fn keys_go_down_and_up(scancode: u32, state: u32)
    ensures
        input::press_of((scancode, state)).scancode == scancode,
        input::press_of((scancode, state)).pressed <==> state != 0,
{
}

/// Ten units of scroll are a notch of 120 steps: the steps are the value's share of them, cut
/// towards zero, of the value's sign, and as many one way as the other. No scroll is sent where
/// nothing moves.
pub proof fn scrolls_are_stepped_in_notches(v: i64)
    requires
        -1_000_000_000 <= v <= 1_000_000_000,
    ensures
        v >= 0 ==> 0 <= v * 12 - input::wheel_steps(v) * 1000 < 1000,
        v <= 0 ==> 0 <= input::wheel_steps(v) * 1000 - v * 12 < 1000,
        input::wheel_steps(-v as i64) == -input::wheel_steps(v),
        input::scroll_of(v) is None <==> v == 0,
        input::scroll_of(v) matches Some(s) ==> s.value_milli == v && s.steps == input::wheel_steps(v),
{
}

/// Beyond what a step count holds, a scroll is as far as it goes.
pub proof fn scrolls_stay_in_range(v: i64)
    ensures
        i32::MIN <= input::wheel_steps(v) <= i32::MAX,
        v > 0 ==> input::wheel_steps(v) >= 0,
        v < 0 ==> input::wheel_steps(v) <= 0,
        v >= 1_000_000_000_000 ==> input::wheel_steps(v) == i32::MAX,
{
}

proof fn topmost_is_last_hit(surfaces: Seq<LayerSurface>, front: bool, x: int, y: int, n: int)
    requires
        0 <= n <= surfaces.len(),
    ensures
        match input::topmost(surfaces, front, x, y, n) {
            None => forall|i: int|
                0 <= i < n ==> !(input::in_front((#[trigger] surfaces[i]).layer) == front
                    && surfaces[i].bbox.x <= x < surfaces[i].bbox.x + surfaces[i].bbox.w
                    && surfaces[i].bbox.y <= y < surfaces[i].bbox.y + surfaces[i].bbox.h),
            Some(s) => exists|k: int|
                0 <= k < n && #[trigger] surfaces[k] == s && input::in_front(s.layer) == front
                    && s.bbox.x <= x < s.bbox.x + s.bbox.w && s.bbox.y <= y < s.bbox.y + s.bbox.h
                    && forall|i: int|
                    k < i < n ==> !(input::in_front((#[trigger] surfaces[i]).layer) == front
                        && surfaces[i].bbox.x <= x < surfaces[i].bbox.x + surfaces[i].bbox.w
                        && surfaces[i].bbox.y <= y < surfaces[i].bbox.y + surfaces[i].bbox.h),
        },
    decreases n,
{
    if n > 0 {
        if input::hit(surfaces[n - 1], front, x, y) {
            assert(surfaces[n - 1] == surfaces[n - 1]);
        } else {
            topmost_is_last_hit(surfaces, front, x, y, n - 1);
        }
    }
}

/// What is focused is what is seen: a surface in front of the windows hides them, a window hides
/// the surfaces behind, the last surface of its side hides the others, and there is nothing only
/// where nothing lies under the pointer. Its place is its output's, moved by its own.
pub proof fn the_pointer_meets_what_is_seen(
    surfaces: Seq<LayerSurface>,
    window: Option<Focus>,
    origin: (i32, i32),
    x: int,
    y: int,
    k: int,
)
    requires
        0 <= k < surfaces.len(),
        surfaces[k].bbox.x <= x < surfaces[k].bbox.x + surfaces[k].bbox.w,
        surfaces[k].bbox.y <= y < surfaces[k].bbox.y + surfaces[k].bbox.h,
    ensures
        ({
            let f = input::focus_of(surfaces, window, origin, x, y);
            let front = surfaces[k].layer == Layer::Top || surfaces[k].layer == Layer::Overlay;
            let last = forall|i: int|
                k < i < surfaces.len() ==> !((#[trigger] surfaces[i]).bbox.x <= x
                    < surfaces[i].bbox.x + surfaces[i].bbox.w && surfaces[i].bbox.y <= y
                    < surfaces[i].bbox.y + surfaces[i].bbox.h);
            &&& front ==> f is Some && f->0 is Layer
            &&& front && last ==> f->0->Layer_id == surfaces[k].id && f->0->Layer_x
                == surfaces[k].bbox.x + origin.0 && f->0->Layer_y == surfaces[k].bbox.y + origin.1
            &&& f is Some
            &&& (forall|i: int|
                0 <= i < surfaces.len() ==> (#[trigger] surfaces[i]).layer != Layer::Top
                    && surfaces[i].layer != Layer::Overlay) && window is Some ==> f == window
        }),
{
    let n = surfaces.len() as int;
    topmost_is_last_hit(surfaces, true, x, y, n);
    topmost_is_last_hit(surfaces, false, x, y, n);
    let front = surfaces[k].layer == Layer::Top || surfaces[k].layer == Layer::Overlay;
    assert(input::in_front(surfaces[k].layer) == front);
    if front {
        let s = input::topmost(surfaces, true, x, y, n)->0;
        let j = choose|j: int|
            0 <= j < n && #[trigger] surfaces[j] == s && input::in_front(s.layer) == true && s.bbox.x
                <= x < s.bbox.x + s.bbox.w && s.bbox.y <= y < s.bbox.y + s.bbox.h && forall|i: int|
                j < i < n ==> !(input::in_front((#[trigger] surfaces[i]).layer) == true
                    && surfaces[i].bbox.x <= x < surfaces[i].bbox.x + surfaces[i].bbox.w
                    && surfaces[i].bbox.y <= y < surfaces[i].bbox.y + surfaces[i].bbox.h);
        assert(j >= k);
    }
}

/// The pointer is on an output exactly where it is inside: from the origin to just before the far
/// edges; and it is then told by its distance from the origin.
pub proof fn pointers_are_told_from_the_origin(
    origin: (i32, i32),
    size: (i32, i32),
    x_milli: i64,
    y_milli: i64,
)
    ensures
        scene::on_output(origin, size, x_milli, y_milli) is Some <==> origin.0 * 1000 <= x_milli < (
        origin.0 + size.0) * 1000 && origin.1 * 1000 <= y_milli < (origin.1 + size.1) * 1000,
        scene::on_output(origin, size, x_milli, y_milli) matches Some(p) ==> p.0 + origin.0 * 1000
            == x_milli && p.1 + origin.1 * 1000 == y_milli,
{
}

/// A cursor is drawn only where cursors are burned in and only where the pointer is: the client's
/// own, none where the client hid it, the default until one was set.
pub proof fn cursors_are_drawn_under_the_pointer(
    burned_in: bool,
    here: bool,
    icon: Option<CursorIcon>,
)
    ensures
        scene::sprite_of(burned_in, here, icon) is Some <==> burned_in && here && icon != Some(
            CursorIcon::Hidden,
        ),
        burned_in && here ==> (scene::sprite_of(burned_in, here, icon) == Some(CursorSprite::Default)
            <==> icon is None),
        burned_in && here ==> (scene::sprite_of(burned_in, here, icon) == Some(CursorSprite::Surface)
            <==> icon == Some(CursorIcon::Surface)),
{
}

proof fn layers_drawn(surfaces: Seq<LayerSurface>, layer: Layer, n: int, k: int)
    requires
        0 <= k < n <= surfaces.len(),
        surfaces[k].layer == layer,
    ensures
        scene::layer_elements(surfaces, layer, n).contains(
            Element::Layer { id: surfaces[k].id, layer },
        ),
    decreases n,
{
    let e = Element::Layer { id: surfaces[k].id, layer };
    let all = scene::layer_elements(surfaces, layer, n);
    let rest = scene::layer_elements(surfaces, layer, n - 1);
    if k == n - 1 {
        assert(all[0] == e);
    } else {
        layers_drawn(surfaces, layer, n - 1, k);
        let at = choose|at: int| 0 <= at < rest.len() && rest[at] == e;
        if surfaces[n - 1].layer == layer {
            assert(all[at + 1] == e);
        } else {
            assert(all[at] == e);
        }
    }
}

proof fn windows_drawn(windows: Seq<SceneWindow>, n: int, k: int)
    requires
        0 <= k < n <= windows.len(),
    ensures
        scene::windows_elements(windows, n).contains(Element::Window(windows[k].id)),
        forall|p: u32|
            p < windows[k].popups ==> scene::windows_elements(windows, n).contains(
                #[trigger] popup(windows[k].id, p),
            ),
    decreases n,
{
    let all = scene::windows_elements(windows, n);
    let own = scene::window_elements(windows[n - 1]);
    let rest = scene::windows_elements(windows, n - 1);
    assert(all == own + rest);
    if k == n - 1 {
        assert(all[own.len() - 1] == Element::Window(windows[k].id));
        assert forall|p: u32| p < windows[k].popups implies all.contains(
            #[trigger] popup(windows[k].id, p),
        ) by {
            assert(all[p as int] == popup(windows[k].id, p));
        }
    } else {
        windows_drawn(windows, n - 1, k);
        let at = choose|at: int|
            0 <= at < rest.len() && rest[at] == Element::Window(windows[k].id);
        assert(all[own.len() + at] == Element::Window(windows[k].id));
        assert forall|p: u32| p < windows[k].popups implies all.contains(
            #[trigger] popup(windows[k].id, p),
        ) by {
            let q = choose|q: int| 0 <= q < rest.len() && rest[q] == popup(windows[k].id, p);
            assert(all[own.len() + q] == popup(windows[k].id, p));
        }
    }
}

/// A window's popup.
pub open spec fn popup(window: u32, nth: u32) -> Element {
    Element::Popup { window, nth }
}

/// Everything there is gets drawn: every surface of every layer, every window and every popup of
/// it, the watermark where there is one, and the cursor, which is in front of all.
pub proof fn everything_is_drawn(
    cursor: Option<CursorSprite>,
    watermark: bool,
    surfaces: Seq<LayerSurface>,
    windows: Seq<SceneWindow>,
    k: int,
    w: int,
)
    requires
        0 <= k < surfaces.len(),
        0 <= w < windows.len(),
    ensures
        ({
            let d = scene::drawn(cursor, watermark, surfaces, windows);
            &&& d.contains(Element::Layer { id: surfaces[k].id, layer: surfaces[k].layer })
            &&& d.contains(Element::Window(windows[w].id))
            &&& forall|p: u32|
                p < windows[w].popups ==> d.contains(#[trigger] popup(windows[w].id, p))
            &&& watermark ==> d.contains(Element::Watermark)
            &&& cursor matches Some(c) ==> d[0] == Element::Cursor(c)
        }),
{
    let n = surfaces.len() as int;
    let d = scene::drawn(cursor, watermark, surfaces, windows);
    let f = scene::front_elements(cursor, watermark);
    let o = scene::layer_elements(surfaces, Layer::Overlay, n);
    let t = scene::layer_elements(surfaces, Layer::Top, n);
    let m = scene::windows_elements(windows, windows.len() as int);
    let b = scene::layer_elements(surfaces, Layer::Bottom, n);
    let g = scene::layer_elements(surfaces, Layer::Background, n);
    layers_drawn(surfaces, surfaces[k].layer, n, k);
    windows_drawn(windows, windows.len() as int, w);
    assert(d == f + o + t + m + b + g);
    part_is_in(f, o, t + m + b + g);
    part_is_in(f + o, t, m + b + g);
    part_is_in(f + o + t, m, b + g);
    part_is_in(f + o + t + m, b, g);
    part_is_in(f + o + t + m + b, g, seq![]);
    assert(d =~= f + o + (t + m + b + g));
    assert(d =~= f + o + t + (m + b + g));
    assert(d =~= f + o + t + m + (b + g));
    assert(d =~= f + o + t + m + b + g + seq![]);
    let e = Element::Layer { id: surfaces[k].id, layer: surfaces[k].layer };
    assert(o.contains(e) || t.contains(e) || b.contains(e) || g.contains(e));
    if watermark {
        assert(f[f.len() - 1] == Element::Watermark);
        assert(d[f.len() - 1] == Element::Watermark);
    }
    if cursor is Some {
        assert(d[0] == f[0]);
    }
}

proof fn part_is_in(a: Seq<Element>, b: Seq<Element>, c: Seq<Element>)
    ensures
        forall|e: Element| #[trigger] b.contains(e) ==> (a + b + c).contains(e),
{
    assert forall|e: Element| #[trigger] b.contains(e) implies (a + b + c).contains(e) by {
        let i = choose|i: int| 0 <= i < b.len() && b[i] == e;
        assert((a + b + c)[a.len() + i] == e);
    }
}

/// The pace's own times are the fractions of a period they are named after, to half a nanosecond:
/// half, a thirty-second, five quarters and nine tenths.
pub proof fn paces_are_fractions_of_a_period(period: int)
    requires
        period >= 0,
    ensures
        -1 <= 2 * pace::half(period) - period <= 1,
        -16 <= 32 * pace::refill(period) - period <= 16,
        -2 <= 4 * pace::graced(period) - 5 * period <= 2,
        -5 <= 10 * pace::slack_period(period) - 9 * period <= 5,
        TickTrigger::Timer.pulls() == false,
        TickTrigger::Input.pulls() == true,
{
    command_laws::shares_are_nearest(period, 1, 2);
    command_laws::shares_are_nearest(period, 1, 32);
    command_laws::shares_are_nearest(period, 5, 4);
    command_laws::shares_are_nearest(period, 9, 10);
}

/// A first frame is due at once; a whole period after the last a pull is due, less than half a
/// period after it is not; and the timer is due once its own wait is over, which is longer after a
/// frame that paced input drew.
pub proof fn frames_are_due_by_the_period(p: FramePace, period: int, now: int, trigger: TickTrigger)
    requires
        period >= 4,
    ensures
        p.last_tick is None ==> p.is_due(trigger, period, now),
        p.last_tick matches Some(last) ==> now - last.nanos >= 2 * period ==> p.is_due(
            trigger,
            period,
            now,
        ),
        p.last_tick matches Some(last) ==> trigger.pulls() && now - last.nanos >= period
            ==> p.is_due(trigger, period, now),
        p.last_tick matches Some(last) ==> 2 * (now - last.nanos) < period - 1 ==> !p.is_due(
            trigger,
            period,
            now,
        ),
        p.last_tick matches Some(last) ==> !trigger.pulls() && p.last_paced && now - last.nanos
            <= period ==> !p.is_due(trigger, period, now),
{
    paces_are_fractions_of_a_period(period);
}

/// A client's stream starts where the elementary stream does: past the ten bytes of a wire header
/// that opens with its tag, else at once.
pub proof fn streams_start_past_their_header(data: Seq<u8>)
    ensures
        recording_sink::stream_offset(data) == 10 || recording_sink::stream_offset(data) == 0,
        recording_sink::stream_offset(data) == 10 <==> data.len() >= 10 && data[0] == 4,
{
}

/// A frame is recorded exactly where it is one whole video frame: its only video, of its full
/// height, with something past the header; every client gets it, behind what its own count of
/// frames asks for, and counts it. A frame in pieces is told once.
pub proof fn whole_frames_reach_every_client(
    before: RecordingSink,
    after: RecordingSink,
    stripes: Seq<EncodedStripe>,
    w: i32,
    h: i32,
    tap: Tap,
    k: int,
)
    requires
        recording_sink::tapped(before, after, stripes, w, h, tap),
        0 <= k < stripes.len(),
        stripes[k].codec != Codec::Jpeg,
        stripes[k].data@.len() > 0,
        forall|j: int|
            0 <= j < stripes.len() && j != k ==> (#[trigger] stripes[j]).codec == Codec::Jpeg
                || stripes[j].data@.len() == 0,
        stripes[k].stripe_y_start == 0,
        stripes[k].stripe_height == h,
    ensures
        tap !is Unrecordable,
        before.clients@.len() > 0 && stripes[k].data@.len() > 10 ==> tap is Frames,
        tap matches Tap::Frames { stripe, offset, prefixes } ==> {
            &&& stripe == k
            &&& offset == recording_sink::stream_offset(stripes[k].data@)
            &&& prefixes@.len() == before.clients@.len()
            &&& after.clients@.len() == before.clients@.len()
            &&& forall|c: int|
                0 <= c < before.clients@.len() ==> (#[trigger] after.clients@[c]).frames
                    == before.clients@[c].frames + 1 && after.clients@[c].id == before.clients@[c].id
        },
{
    assert(recording_sink::video_at(stripes, k));
    assert forall|j: int| #[trigger] recording_sink::video_at(stripes, j) implies j == k by {}
    assert(recording_sink::lone_full_frame(stripes, h, k));
}

/// A frame that is in two pieces, or covers a part, is not recorded.
pub proof fn frames_in_pieces_are_not_recorded(
    before: RecordingSink,
    after: RecordingSink,
    stripes: Seq<EncodedStripe>,
    w: i32,
    h: i32,
    tap: Tap,
    k: int,
)
    requires
        recording_sink::tapped(before, after, stripes, w, h, tap),
        0 <= k < stripes.len(),
        stripes[k].codec != Codec::Jpeg,
        stripes[k].data@.len() > 0,
        stripes[k].stripe_y_start != 0 || stripes[k].stripe_height != h,
    ensures
        tap is Unrecordable,
        tap->first <==> !before.warned_unrecordable,
        after.warned_unrecordable,
        after.clients == before.clients,
{
    assert(recording_sink::video_at(stripes, k));
    assert forall|i: int| !recording_sink::lone_full_frame(stripes, h, i) by {
        if recording_sink::lone_full_frame(stripes, h, i) {
            assert(k == i);
        }
    }
}

/// The container ahead of a frame: none for H.264 and H.265, whose streams stand alone; of AV1 a
/// delimiter where the unit brings none; of VP8 and VP9 the frame's header, and the file's ahead of
/// the first.
pub proof fn containers_are_the_codecs(
    codec: Codec,
    payload: Seq<u8>,
    index: u64,
    size: (u16, u16),
    fps: u32,
)
    ensures
        ({
            let p = recording_sink::prefix_bytes(codec, payload, index, size, fps);
            &&& codec == Codec::H264 || codec == Codec::H265 ==> p.len() == 0
            &&& codec == Codec::Av1 && payload.len() > 0 && payload[0] / 8 % 16 == 2 ==> p.len() == 0
            &&& codec == Codec::Av1 && payload.len() > 0 && payload[0] / 8 % 16 != 2 ==> p.len() == 2
                && p[0] == 0x12 && p[1] == 0
            &&& codec == Codec::Vp8 || codec == Codec::Vp9 ==> p.len() == if index == 0 {
                44int
            } else {
                12
            }
            &&& (codec == Codec::Vp8 || codec == Codec::Vp9) && index == 0 ==> p[0] == 0x44 && p[1]
                == 0x4b && p[2] == 0x49 && p[3] == 0x46 && p[6] == 32 && p[7] == 0 && p[8] == 0x56
                && p[9] == 0x50 && p[10] == (if codec == Codec::Vp8 {
                0x38u8
            } else {
                0x39u8
            }) && p[11] == 0x30
        }),
{
}

/// A frame is written from where it stands until all of it is out; a stop ends it before that.
pub proof fn frames_are_written_to_their_end(w: FrameWrite, stop: bool)
    ensures
        w.step(stop) == WriteStep::Done <==> w.written >= w.len,
        w.written < w.len && !stop ==> w.step(stop) == WriteStep::Write(w.written),
        w.written < w.len && stop ==> w.step(stop) == WriteStep::Stopped,
{
}

/// The clients that leave are exactly those that did not take their frame, the last of them first,
/// so that none that is still to leave changes its place.
pub proof fn clients_leave_from_the_back(taken: Seq<bool>, from: int, k: usize)
    requires
        0 <= from <= taken.len() <= usize::MAX,
    ensures
        recording_sink::leaving(taken, from).contains(k) <==> from <= k < taken.len()
            && !taken[k as int],
        forall|i: int, j: int|
            0 <= i < j < recording_sink::leaving(taken, from).len() ==> #[trigger]
            recording_sink::leaving(taken, from)[i] > #[trigger] recording_sink::leaving(
                taken,
                from,
            )[j],
        forall|i: int|
            0 <= i < recording_sink::leaving(taken, from).len() ==> #[trigger]
            recording_sink::leaving(taken, from)[i] >= from,
    decreases taken.len() - from,
{
    if from < taken.len() {
        clients_leave_from_the_back(taken, from + 1, k);
        let all = recording_sink::leaving(taken, from);
        let rest = recording_sink::leaving(taken, from + 1);
        if !taken[from] {
            assert(all == rest.push(from as usize));
            assert(all[rest.len() as int] == from);
            if rest.contains(k) {
                let at = choose|at: int| 0 <= at < rest.len() && rest[at] == k;
                assert(all[at] == k);
            }
            if all.contains(k) {
                let at = choose|at: int| 0 <= at < all.len() && all[at] == k;
                if at < rest.len() {
                    assert(rest[at] == k);
                }
            }
            assert forall|i: int, j: int| 0 <= i < j < all.len() implies #[trigger] all[i]
                > #[trigger] all[j] by {
                assert(all[i] == rest[i]);
                if j < rest.len() {
                    assert(all[j] == rest[j]);
                }
            }
            assert forall|i: int| 0 <= i < all.len() implies #[trigger] all[i] >= from by {
                if i < rest.len() {
                    assert(all[i] == rest[i]);
                }
            }
        }
    }
}

/// A frame starts its pace over from where it was rendered; only one that paced input drew makes the
/// timer stand back, and the timer's own frames leave what pulls may borrow as it was.
pub proof fn frames_leave_their_mark_on_the_pace(
    p: FramePace,
    trigger: TickTrigger,
    period: int,
    now: Instant,
    paced: bool,
)
    ensures
        ({
            let q = p.after_tick(trigger, period, now, paced);
            &&& q.last_tick == Some(now)
            &&& q.last_paced <==> trigger == TickTrigger::Input && paced
            &&& q.deferred_until is None
            &&& trigger == TickTrigger::Timer ==> q.borrow_budget == p.borrow_budget
            &&& p.last_tick is None ==> q.borrow_budget == p.borrow_budget
        }),
{
}

} // verus!
