//! What commands, starts and stops do: settings arrive as they were asked for, the timer keeps the
//! pace of the fastest capture, and a handle stops what is its own.

use vstd::prelude::*;
use crate::clock;
use crate::clock::Instant;
use crate::command;
use crate::command::{OutputDesc, ThreadCommand};
use crate::device_laws;
use crate::encode_loop::GpuEncoder;
use crate::lifecycle;
use crate::recording_sink::RecordingSink;
use crate::session;
use crate::session::{CaptureBackend, CaptureBook, CaptureState, Join, ScreenCapture, StopPlan};
use crate::settings;
use crate::settings::{Fixed, LiveTunables, RustCaptureSettings};
use crate::start;
use crate::text;
use crate::wayland;
use crate::wayland::{Compositor, OutputNode, WlCapture, Window};

verus! {

/// An output is listed as it is: its place, its mode, its scale, and whether it is captured.
pub proof fn outputs_are_listed_as_they_are(n: OutputNode)
    ensures
        ({
            let d: OutputDesc = command::desc_of(n);
            &&& d.id == n.id
            &&& d.x == n.pos.0 && d.y == n.pos.1
            &&& n.mode matches Some(m) ==> d.width == m.w && d.height == m.h
            &&& n.mode is None ==> d.width == 0 && d.height == 0
            &&& d.scale_micro == n.scale_micro
            &&& d.capturing <==> n.capture is Some
        }),
{
}

/// A window is found by its number: the first that has it, and none only where none has it.
pub proof fn windows_are_found_by_number(windows: Seq<Window>, id: u32, from: int)
    requires
        0 <= from <= windows.len(),
    ensures
        match command::window_from(windows, id, from) {
            Some(i) => from <= i < windows.len() && windows[i].id == id && forall|j: int|
                from <= j < i ==> (#[trigger] windows[j]).id != id,
            None => forall|j: int| from <= j < windows.len() ==> (#[trigger] windows[j]).id != id,
        },
    decreases windows.len() - from,
{
    if from < windows.len() && windows[from].id != id {
        windows_are_found_by_number(windows, id, from + 1);
    }
}

/// A rate change sets what it gives and leaves what it does not, in the settings and for the encode
/// thread alike, which is told; a frame rate of nothing changes none. No other setting changes.
pub proof fn rate_changes_set_what_they_give(
    cap: WlCapture,
    bitrate_kbps: Option<i32>,
    vbv_milli: Option<i32>,
    fps_milli: Option<u32>,
)
    ensures
        ({
            let after = command::with_rate(cap, bitrate_kbps, vbv_milli, fps_milli);
            let (s, t) = (cap.settings, after.settings);
            &&& bitrate_kbps matches Some(b) ==> t.video_bitrate_kbps == b
                && after.controls.bitrate_kbps == b
            &&& bitrate_kbps is None ==> t.video_bitrate_kbps == s.video_bitrate_kbps
            &&& vbv_milli matches Some(v) ==> t.video_vbv_multiplier_milli == v
                && after.controls.vbv_mult_milli == v
            &&& vbv_milli is None ==> t.video_vbv_multiplier_milli == s.video_vbv_multiplier_milli
            &&& fps_milli matches Some(f) ==> f > 0 ==> t.target_fps_milli == f
            &&& fps_milli matches Some(f) ==> f >= 1000 ==> after.controls.fps_milli == f
            &&& fps_milli is None || fps_milli == Some(0u32) ==> t.target_fps_milli
                == s.target_fps_milli
            &&& after.controls.rate_dirty
            &&& after.controls.force_idr == cap.controls.force_idr
            &&& after.controls.tunables_dirty == cap.controls.tunables_dirty
            &&& after.controls.tunables == cap.controls.tunables
            &&& t == (RustCaptureSettings {
                video_bitrate_kbps: t.video_bitrate_kbps,
                video_vbv_multiplier_milli: t.video_vbv_multiplier_milli,
                target_fps_milli: t.target_fps_milli,
                ..s
            })
            &&& after.session == cap.session && after.recording_sink == cap.recording_sink
            &&& after.frame_counter == cap.frame_counter
        }),
{
}

/// Live tunables replace the whole live-tunable part of the settings, field by field, and nothing
/// else; the encode thread is told of them as they are.
pub proof fn tunables_replace_tunables(cap: WlCapture, t: LiveTunables)
    ensures
        ({
            let after = command::with_tunables(cap, t);
            let (s, n) = (cap.settings, after.settings);
            &&& n.jpeg_quality == t.jpeg_quality
            &&& n.paint_over_jpeg_quality == t.paint_over_jpeg_quality
            &&& n.use_paint_over_quality == t.use_paint_over_quality
            &&& n.paint_over_trigger_frames == t.paint_over_trigger_frames
            &&& n.video_crf == t.video_crf
            &&& n.video_paintover_crf == t.video_paintover_crf
            &&& n.video_paintover_burst_frames == t.video_paintover_burst_frames
            &&& n.video_streaming_mode == t.video_streaming_mode
            &&& n.keyframe_interval_ms == t.keyframe_interval_ms
            &&& n.capture_cursor == t.capture_cursor
            &&& n.cursor_size_cap == t.cursor_size_cap
            &&& n.width == s.width && n.height == s.height && n.scale_micro == s.scale_micro
            &&& n.target_fps_milli == s.target_fps_milli && n.output_mode == s.output_mode
            &&& n.video_bitrate_kbps == s.video_bitrate_kbps && n.video_fullcolor
                == s.video_fullcolor && n.codec == s.codec && n.use_cpu == s.use_cpu
            &&& n.recording_socket == s.recording_socket && n.encode_node_index
                == s.encode_node_index && n.video_cbr_mode == s.video_cbr_mode
            &&& after.controls.tunables == Some(t) && after.controls.tunables_dirty
            &&& after.controls.rate_dirty == cap.controls.rate_dirty
            &&& after.controls.force_idr == cap.controls.force_idr
            &&& after.session == cap.session && after.frame_counter == cap.frame_counter
        }),
{
}

/// The tunables of a settings value are its own, so that putting them back changes nothing.
pub proof fn tunables_are_taken_whole(s: RustCaptureSettings, t: LiveTunables)
    ensures
        LiveTunables::of(s).applied(s) == s,
        LiveTunables::of(t.applied(s)) == t,
        LiveTunables::of(s).video_crf == s.video_crf,
        LiveTunables::of(s).jpeg_quality == s.jpeg_quality,
        LiveTunables::of(s).keyframe_interval_ms == s.keyframe_interval_ms,
{
}

proof fn fastest_bounds(nodes: Seq<OutputNode>, n: int)
    requires
        0 <= n <= nodes.len(),
    ensures
        forall|i: int|
            0 <= i < n && (#[trigger] nodes[i]).capture is Some
                ==> nodes[i].capture->0.settings.target_fps_milli <= Compositor::fastest(nodes, n),
        Compositor::fastest(nodes, n) > 0 ==> exists|i: int|
            0 <= i < n && (#[trigger] nodes[i]).capture is Some
                && nodes[i].capture->0.settings.target_fps_milli == Compositor::fastest(nodes, n),
    decreases n,
{
    if n > 0 {
        fastest_bounds(nodes, n - 1);
        assert(nodes[n - 1].capture is Some || nodes[n - 1].capture is None);
    }
}

/// The timer keeps up with every capture, up to a thousand frames a second, and with no more than
/// the fastest; with nothing captured it keeps the primary's rate, and sixty a second where that is
/// none.
pub proof fn the_timer_paces_for_the_fastest(c: Compositor, i: int)
    requires
        0 <= i < c.nodes@.len(),
    ensures
        0 < c.paced_fps() <= 1_000_000,
        c.nodes@[i].capture matches Some(cap) ==> cap.settings.target_fps_milli <= c.paced_fps()
            || c.paced_fps() == 1_000_000,
        (c.nodes@[i].capture matches Some(cap) && cap.settings.target_fps_milli > 0) ==> exists|
            j: int,
        |
            0 <= j < c.nodes@.len() && (#[trigger] c.nodes@[j]).capture is Some
                && c.nodes@[j].capture->0.settings.target_fps_milli >= c.paced_fps(),
        (forall|j: int| 0 <= j < c.nodes@.len() ==> (#[trigger] c.nodes@[j]).capture is None) ==> {
            &&& c.settings.target_fps_milli == 0 ==> c.paced_fps() == 60_000
            &&& 0 < c.settings.target_fps_milli <= 1_000_000 ==> c.paced_fps()
                == c.settings.target_fps_milli
        },
{
    fastest_bounds(c.nodes@, c.nodes@.len() as int);
}

/// The time of a frame is a second's share at its rate, to half a nanosecond.
pub proof fn frames_take_their_share(fps_milli: u32)
    requires
        fps_milli > 0,
    ensures
        ({
            let ns = Compositor::frame_ns(fps_milli);
            let f = fps_milli as int;
            -f <= 2 * (ns * f) - 2_000_000_000_000 <= f
        }),
{
    let f = fps_milli as int;
    let n = 2_000_000_000_000 + f;
    let q = n / (2 * f);
    vstd::arithmetic::div_mod::lemma_fundamental_div_mod(n, 2 * f);
    vstd::arithmetic::div_mod::lemma_mod_bound(n, 2 * f);
    assert((2 * f) * q == 2 * (q * f)) by (nonlinear_arith);
}

/// The time since an event is the time passed, never less than nothing, and there is none without
/// the event.
pub proof fn time_passes_forward(t: Instant, now: Instant)
    ensures
        command::since(None, now) is None,
        now.nanos >= t.nanos ==> command::since(Some(t), now) == Some(now.nanos - t.nanos),
        now.nanos < t.nanos ==> command::since(Some(t), now) == Some(0int),
{
}

/// Keys, motions, buttons and scrolls are inputs; what changes or asks after a capture is not.
pub proof fn inputs_are_told_from_commands(c: ThreadCommand)
    ensures
        c is KeyboardKey || c is KeyboardKeys || c is PointerMotion || c is PointerRelativeMotion || c
            is PointerButton || c is PointerAxis <==> c.input(),
        c is UpdateTunables || c is CuScreenshot || c is CuCursorPosition || c is CuGetInfo
            ==> !c.input(),
{
}

/// A modifier adds its own value where it is down, and nothing where it is not.
pub proof fn modifiers_weigh_what_they_are(value: int)
    ensures
        command::weight(true, value) == value,
        command::weight(false, value) == 0,
{
}

/// A start keeps every setting but the encode device that was not chosen and, for H.264, an odd
/// dimension, which loses one pixel: 4:2:0 has no half ones. What was chosen is kept.
pub proof fn starts_keep_what_was_asked(c: Compositor, s: RustCaptureSettings)
    requires
        s.width > i32::MIN && s.height > i32::MIN,
    ensures
        ({
            let r = start::resolved(c, s);
            &&& s.output_mode == 1 ==> r.width % 2 == 0 && r.height % 2 == 0 && s.width - 1 <= r.width
                <= s.width && s.height - 1 <= r.height <= s.height
            &&& s.output_mode != 1 ==> r.width == s.width && r.height == s.height
            &&& s.encode_node_index >= -1 || !c.auto_gpu_selected ==> r.encode_node_index
                == s.encode_node_index
            &&& r == (RustCaptureSettings {
                width: r.width,
                height: r.height,
                encode_node_index: r.encode_node_index,
                ..s
            })
        }),
{
}

/// An output is reconfigured for a start exactly where it shows something else: another size, a
/// scale more than a thousandth off, or another rate.
pub proof fn outputs_change_where_they_differ(n: OutputNode, m: wayland::Mode, s: RustCaptureSettings)
    requires
        n.mode == Some(m),
        s.target_fps_milli <= i32::MAX,
    ensures
        start::mode_differs(n, s) <==> m.w != s.width || m.h != s.height || m.refresh
            != s.target_fps_milli || n.scale_micro - s.scale_micro > 1000 || s.scale_micro
            - n.scale_micro > 1000,
{
}

/// An output that was reconfigured shows what was asked for and keeps its place and its capture; one
/// that could not be leaves the settings as what it shows. Done twice, the first is done: an output
/// that shows what was asked for is not reconfigured again, nor is one whose settings follow it.
pub proof fn outputs_show_what_was_asked(
    before: OutputNode,
    after: OutputNode,
    s: RustCaptureSettings,
)
    requires
        start::configured(before, after, s),
        before.mode matches Some(m) ==> m.refresh >= 0,
    ensures
        after.mode matches Some(m) && m.w == s.width && m.h == s.height,
        after.scale_micro == s.scale_micro,
        s.width > 0 && s.height > 0 ==> after.frame_buffer@.len() == 4 * (s.width * s.height),
        !after.target_seeded,
        after.id == before.id && after.pos == before.pos && after.capture == before.capture,
        !start::mode_differs(after, s),
        !start::mode_differs(before, start::kept_settings(before, s)),
        ({
            let k = start::kept_settings(before, s);
            &&& before.mode matches Some(m) ==> k.width == m.w && k.height == m.h
                && k.target_fps_milli == m.refresh
            &&& k.scale_micro == before.scale_micro
            &&& k.video_crf == s.video_crf && k.output_mode == s.output_mode && k.video_bitrate_kbps
                == s.video_bitrate_kbps && k.encode_node_index == s.encode_node_index
        }),
{
    if s.width > 0 && s.height > 0 {
        let (w, h) = (s.width as int, s.height as int);
        assert(w * h >= 0) by (nonlinear_arith)
            requires
                w > 0,
                h > 0,
        ;
        assert(w * h * 4 == 4 * (w * h)) by (nonlinear_arith);
    }
}

/// One of the first `n` windows has this number, is tagged for the display and is not parked.
pub open spec fn shown_on(windows: Seq<Window>, id: u32, n: int, number: u32) -> bool {
    exists|j: int|
        0 <= j < n && (#[trigger] windows[j]).output == id && !windows[j].parked && windows[j].id
            == number
}

/// The windows of a display that a start fullscreens: all of them but the parked ones, and none of
/// another display.
pub proof fn own_windows_are_fullscreened(windows: Seq<Window>, id: u32, n: int, number: u32)
    requires
        0 <= n <= windows.len(),
    ensures
        Compositor::fullscreen_ids(windows, id, n).contains(number) <==> shown_on(
            windows,
            id,
            n,
            number,
        ),
    decreases n,
{
    if n > 0 {
        own_windows_are_fullscreened(windows, id, n - 1, number);
        let ids = Compositor::fullscreen_ids(windows, id, n);
        let fewer = Compositor::fullscreen_ids(windows, id, n - 1);
        let last = windows[n - 1];
        if last.output == id && !last.parked {
            assert(ids == fewer.push(last.id));
            assert(ids[fewer.len() as int] == last.id);
            if fewer.contains(number) {
                let at = choose|at: int| 0 <= at < fewer.len() && fewer[at] == number;
                assert(ids[at] == number);
            }
            if ids.contains(number) {
                let at = choose|at: int| 0 <= at < ids.len() && ids[at] == number;
                if at < fewer.len() {
                    assert(fewer[at] == number);
                }
            }
        }
        if shown_on(windows, id, n - 1, number) {
            let j = choose|j: int|
                0 <= j < n - 1 && (#[trigger] windows[j]).output == id && !windows[j].parked
                    && windows[j].id == number;
            assert(windows[j].output == id);
        }
    }
}

/// A stream is encoded where it was asked to be: by software where software was asked for or the
/// stream is JPEG; else on a device, and without a copy exactly where the renderer runs on that
/// device's GPU.
pub proof fn streams_are_encoded_where_they_should_be(c: Compositor, s: RustCaptureSettings)
    ensures
        ({
            let p = start::path_of(c, s);
            let device = s.output_mode == 1 && !s.use_cpu && s.encode_node_index != -1;
            let elsewhere = c.render_node_path@.len() > 0 && !text::holds(
                c.render_node_path@,
                "renderD"@ + text::signed_decimal(
                    if s.encode_node_index <= 0 {
                        128
                    } else {
                        128 + s.encode_node_index
                    },
                ),
            );
            &&& p.gpu_intent <==> device
            &&& p.cpu_explicit <==> s.use_cpu || s.encode_node_index == -1
            &&& p.zero_copy <==> device && c.use_gpu && !elsewhere
            &&& p.different_gpu <==> device && elsewhere
        }),
{
}

/// A capture that starts encodes at its own settings from a keyframe: asked of the session where it
/// has one, else of the encode thread, whose pool has no buffer that counts as drawn.
pub proof fn captures_start_from_a_keyframe(
    cap: WlCapture,
    s: RustCaptureSettings,
    encoder: Option<GpuEncoder>,
    sink: Option<RecordingSink>,
)
    requires
        start::started(cap, s, encoder, sink),
    ensures
        cap.settings == s && cap.session == encoder && cap.recording_sink == sink,
        encoder is Some ==> cap.pending_force_idr && !cap.readback,
        encoder is None ==> cap.readback && cap.controls.force_idr,
        encoder is None ==> cap.controls.bitrate_kbps == s.video_bitrate_kbps
            && cap.controls.vbv_mult_milli == s.video_vbv_multiplier_milli,
        encoder is None && s.target_fps_milli >= 1000 ==> cap.controls.fps_milli
            == s.target_fps_milli,
        encoder is None ==> cap.pool_last_render@.len() == 2 && cap.pool_content_gen@.len() == 2,
        encoder is None ==> forall|i: int|
            #![trigger cap.pool_content_gen@[i]]
            0 <= i < 2 ==> cap.pool_content_gen@[i] != cap.content_gen,
        cap.needs_full_render && cap.delivers && cap.frame_counter == 0,
        cap.pending_hw_delivery is None && !cap.pending_hw_damage,
        !cap.controls.rate_dirty && !cap.controls.tunables_dirty,
{
}

/// A readback path that comes up behind a session that died keeps the capture and its rate, and has
/// no buffer that counts as drawn.
pub proof fn readback_takes_over_whole(before: WlCapture, after: WlCapture)
    requires
        start::bootstrapped(before, after),
    ensures
        after.readback,
        after.settings == before.settings && after.recording_sink == before.recording_sink,
        after.frame_counter == before.frame_counter && after.delivers == before.delivers,
        after.controls.bitrate_kbps == before.settings.video_bitrate_kbps,
        after.controls.vbv_mult_milli == before.settings.video_vbv_multiplier_milli,
        before.settings.target_fps_milli >= 1000 ==> after.controls.fps_milli
            == before.settings.target_fps_milli,
        after.controls.force_idr == before.controls.force_idr,
        after.pool_content_gen@.len() == 2 && after.pool_last_render@.len() == 2,
        forall|i: int|
            #![trigger after.pool_content_gen@[i]]
            0 <= i < 2 ==> after.pool_content_gen@[i] != after.content_gen,
{
}

/// A caller's numbers are brought within bounds and otherwise kept: a dimension from none to 16384,
/// a quality from 1 to 100, a rate or a scale above nothing and up to its most, else its default.
pub proof fn settings_are_brought_within_bounds(v: i32, n: Fixed, most: u32, fallback: u32)
    requires
        0 < fallback <= most,
    ensures
        0 <= settings::bounded_dim(v) <= 16384,
        0 <= v <= 16384 ==> settings::bounded_dim(v) == v,
        v > 16384 ==> settings::bounded_dim(v) == 16384,
        1 <= settings::bounded_quality(v) <= 100,
        1 <= v <= 100 ==> settings::bounded_quality(v) == v,
        v > 100 ==> settings::bounded_quality(v) == 100,
        0 < settings::bounded_number(n, most, fallback) <= most,
        n matches Fixed::Finite(x) ==> {
            &&& 0 < x <= most ==> settings::bounded_number(n, most, fallback) == x
            &&& x > most ==> settings::bounded_number(n, most, fallback) == most
            &&& x <= 0 ==> settings::bounded_number(n, most, fallback) == fallback
        },
        n is NotFinite ==> settings::bounded_number(n, most, fallback) == fallback,
{
}

/// A capture that runs is running, whatever was recorded of it; one that does not has failed exactly
/// where a reason was recorded.
pub proof fn states_say_what_runs(running: bool, error: bool)
    ensures
        CaptureState::of(running, error) == CaptureState::Running <==> running,
        CaptureState::of(running, error) == CaptureState::Failed <==> !running && error,
        CaptureState::of(running, error) == CaptureState::Idle <==> !running && !error,
{
}

/// A device that was not chosen is the one of the render node picked; an explicit choice is kept.
pub proof fn chosen_devices_are_kept(index: i32, picked: Seq<char>)
    ensures
        index >= -1 ==> session::filled_index(index, Some(picked)) == index,
        session::filled_index(index, None) == index,
        index < -1 ==> (session::node_number(picked) matches Some(n) ==> session::filled_index(
            index,
            Some(picked),
        ) + 128 == n),
        index < -1 && session::node_number(picked) is None ==> session::filled_index(
            index,
            Some(picked),
        ) == index,
{
}

/// A stop leaves the handle idle and stops what is its own: the X11 threads by their flag, the
/// display's capture only where this handle still owns it; threads are waited for, but never by one
/// of themselves. Other displays and other handles' captures stay as they were.
pub proof fn stops_end_their_own(
    h: ScreenCapture,
    book: CaptureBook,
    current: u64,
    late: Option<u64>,
    after: ScreenCapture,
    book_after: CaptureBook,
    plan: StopPlan,
    other: u32,
)
    requires
        h.stopped(book, current, late, after, book_after, plan),
    ensures
        after.backend == CaptureBackend::Idle && after.id == h.id && after.controls is None,
        after.cap_thread is None && after.encode_thread is None && after.deliver_thread is None,
        !after.cursor_ref && after.err is None,
        h.controls is Some ==> plan.controls is Some && plan.controls->0.stop,
        plan.release_cursor <==> h.cursor_ref,
        plan.stop_display matches Some(d) ==> h.backend == CaptureBackend::Wayland && d
            == h.wl_display && book.owned_by(d, h.id) && !book_after.owned_by(d, h.id),
        h.backend == CaptureBackend::Wayland && book.owned_by(h.wl_display, h.id)
            ==> plan.stop_display is Some,
        plan.join == Join::Wait ==> h.backend != CaptureBackend::Wayland && h.cap_thread != Some(
            current,
        ) && h.deliver_thread != Some(current) && h.encode_thread != Some(current),
        h.backend != CaptureBackend::Wayland && h.cap_thread != Some(current) && h.deliver_thread
            != Some(current) && h.encode_thread != Some(current) && late != Some(current)
            ==> plan.join == Join::Wait,
        other != h.wl_display ==> forall|o: u64|
            book_after.owned_by(other, o) == #[trigger] book.owned_by(other, o),
        forall|o: u64|
            o != h.id && #[trigger] book.owned_by(h.wl_display, o) ==> book_after.owned_by(
                h.wl_display,
                o,
            ),
        book_after.alive == book.alive && book_after.errors == book.errors,
{
}

/// A capture restarts in place only where it runs, on the same display, under this very handle.
pub proof fn only_own_captures_restart_in_place(
    h: ScreenCapture,
    book: CaptureBook,
    wayland: bool,
    display_id: u32,
)
    ensures
        h.restarts_live(book, wayland, display_id) <==> wayland && h.backend
            == CaptureBackend::Wayland && h.wl_display == display_id && book.owners@.dom().contains(
            display_id,
        ) && book.owners@[display_id] == h.id && book.alive@.contains(display_id),
{
}

/// A clock never runs back, and a share of a time is that part of it, to half a nanosecond.
pub proof fn shares_are_nearest(nanos: int, num: int, den: int)
    requires
        nanos >= 0,
        num >= 0,
        den > 0,
    ensures
        -den <= 2 * (clock::share(nanos, num, den) * den) - 2 * (nanos * num) <= den,
{
    let n = 2 * nanos * num + den;
    let q = n / (2 * den);
    vstd::arithmetic::div_mod::lemma_fundamental_div_mod(n, 2 * den);
    vstd::arithmetic::div_mod::lemma_mod_bound(n, 2 * den);
    assert((2 * den) * q == 2 * (q * den)) by (nonlinear_arith);
    assert(2 * nanos * num == 2 * (nanos * num)) by (nonlinear_arith);
}

/// What a start records of its outcome is its own display's, and touches nothing else.
pub proof fn outcomes_are_recorded_alone(
    before: Compositor,
    after: Compositor,
    id: u32,
    why: Seq<char>,
    other: u32,
)
    requires
        start::only_error(before, after, id, why),
        other != id,
    ensures
        after.book.error_of(id) matches Some(e) && e@ == why,
        after.book.error_of(other) == before.book.error_of(other),
        after.book.alive == before.book.alive,
        after.nodes == before.nodes && after.windows == before.windows,
        after.settings == before.settings,
{
}

/// A change to a display's capture changes that capture, and no other output or display.
pub proof fn changes_touch_one_capture(
    before: Compositor,
    after: Compositor,
    i: int,
    change: spec_fn(WlCapture) -> WlCapture,
    j: int,
)
    requires
        0 <= i < before.nodes@.len(),
        0 <= j < before.nodes@.len(),
        wayland::distinct_ids(before.nodes@),
        command::one_capture(before, after, before.nodes@[i].id, change),
    ensures
        after.nodes@.len() == before.nodes@.len(),
        j != i ==> after.nodes@[j] == before.nodes@[j],
        before.nodes@[i].capture matches Some(c) ==> after.nodes@[i].capture == Some(change(c)),
        before.nodes@[i].capture is None ==> after.nodes@[i] == before.nodes@[i],
        after.nodes@[i].id == before.nodes@[i].id && after.nodes@[i].pos == before.nodes@[i].pos
            && after.nodes@[i].mode == before.nodes@[i].mode,
{
    let nodes = before.nodes@;
    wayland::index_finds(nodes, nodes[i].id, 0);
    let at = wayland::index_of(nodes, nodes[i].id)->0;
    if at != i {
        assert(at < i ==> nodes[at].id != nodes[i].id);
        assert(i < at ==> nodes[i].id != nodes[at].id);
    }
}

/// The rate that is told of a capture is the one it has after the change, and settings that follow
/// it take that rate and nothing else.
pub proof fn rates_are_told_as_they_are(
    n: OutputNode,
    cap: WlCapture,
    bitrate_kbps: Option<i32>,
    vbv_milli: Option<i32>,
    fps_milli: Option<u32>,
    own: RustCaptureSettings,
)
    requires
        n.capture == Some(cap),
    ensures
        ({
            let after = command::with_rate(cap, bitrate_kbps, vbv_milli, fps_milli).settings;
            let told = command::new_rate(n, bitrate_kbps, vbv_milli, fps_milli);
            let m = command::mirrored(own, told);
            &&& told == Some(
                (
                    after.video_bitrate_kbps,
                    after.video_vbv_multiplier_milli,
                    after.target_fps_milli,
                ),
            )
            &&& m.video_bitrate_kbps == after.video_bitrate_kbps
            &&& m.video_vbv_multiplier_milli == after.video_vbv_multiplier_milli
            &&& m.target_fps_milli == after.target_fps_milli
            &&& m.width == own.width && m.video_crf == own.video_crf && m.output_mode
                == own.output_mode
        }),
        command::mirrored(own, None) == own,
        command::session_of(n) == cap.session,
{
}

/// A render node's number is the one its path ends in.
pub proof fn render_nodes_are_numbered(n: nat)
    requires
        n <= 0x7fff_ffff,
    ensures
        session::node_number("/dev/dri/renderD"@ + text::decimal(n)) == Some(n as int),
{
    let head = "/dev/dri/renderD"@;
    let path = head + text::decimal(n);
    assert(path.take(head.len() as int) =~= head);
    assert(path.skip(head.len() as int) =~= text::decimal(n));
    device_laws::numbers_read_back(n, 0x7fff_ffff);
}

/// What is told of a start or a stop names what happened: the size kept ahead of the one asked for,
/// the encoder that did not open, the host that was not reached, the display that is not there.
pub proof fn caveats_name_what_happened(
    kept: (i32, i32),
    want: (i32, i32),
    s: RustCaptureSettings,
    m: wayland::Mode,
    why: Seq<char>,
    host: Seq<char>,
    id: u32,
)
    ensures
        text::opens_with(
            lifecycle::refusal_text(kept, want),
            "host kept "@ + text::signed_decimal(kept.0 as int) + "x"@ + text::signed_decimal(
                kept.1 as int,
            ) + " ("@ + text::signed_decimal(want.0 as int) + "x"@ + text::signed_decimal(
                want.1 as int,
            ),
        ),
        text::opens_with(
            start::resize_text(s, m),
            "GPU buffer resize to "@ + text::signed_decimal(s.width as int) + "x"@
                + text::signed_decimal(s.height as int),
        ),
        text::opens_with(start::init_text(true, why), "NVENC init failed ("@ + why),
        text::opens_with(start::init_text(false, why), "VAAPI init failed ("@ + why),
        text::opens_with(
            start::connect_text(host, why),
            "host compositor '"@ + host + "' connect failed ("@ + why,
        ),
        start::no_output_text(id) == "no output with display id "@ + text::decimal(id as nat),
{
    opens(
        "host kept "@ + text::signed_decimal(kept.0 as int) + "x"@ + text::signed_decimal(
            kept.1 as int,
        ) + " ("@ + text::signed_decimal(want.0 as int) + "x"@ + text::signed_decimal(
            want.1 as int,
        ),
        " declined)"@,
    );
    let head = "GPU buffer resize to "@ + text::signed_decimal(s.width as int) + "x"@
        + text::signed_decimal(s.height as int);
    let tail = " refused; kept "@ + text::signed_decimal(m.w as int) + "x"@ + text::signed_decimal(
        m.h as int,
    );
    opens(head, tail);
    assert(start::resize_text(s, m) =~= head + tail);
    opens("NVENC init failed ("@ + why, "); using CPU encode"@);
    opens("VAAPI init failed ("@ + why, "); using CPU encode"@);
    opens("host compositor '"@ + host + "' connect failed ("@ + why, "); capturing locally"@);
}

proof fn opens(a: Seq<char>, b: Seq<char>)
    ensures
        text::opens_with(a + b, a),
{
    assert((a + b).take(a.len() as int) =~= a);
}

} // verus!
