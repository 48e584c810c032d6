//! The end of captures and outputs, and what a host compositor's answers come to.

use vstd::prelude::*;
use vstd::string::*;
use crate::layout;
use crate::session::set_wayland_capture_err;
use crate::settings::RustCaptureSettings;
use crate::text;
use crate::text::append_signed;
use crate::wayland;
use crate::wayland::{node_idx_for_id, Compositor, OutputNode, PendingHostLayout, WlCapture, Window};

verus! {

broadcast use vstd::std_specs::hash::group_hash_axioms;

/// The size and scale that a display shows: its capture's, else its output's mode, else nothing.
pub open spec fn geometry_of(nodes: Seq<OutputNode>, id: u32) -> (i32, i32, u32) {
    match wayland::index_of(nodes, id) {
        None => (0, 0, 0),
        Some(i) => match nodes[i].capture {
            Some(c) => (c.settings.width, c.settings.height, c.settings.scale_micro),
            None => match nodes[i].mode {
                Some(m) => (m.w, m.h, nodes[i].scale_micro),
                None => (0, 0, 0),
            },
        },
    }
}

/// The first request from the `i`th on for a display.
pub open spec fn request_from(pending: Seq<PendingHostLayout>, id: u32, i: int) -> Option<int>
    decreases pending.len() - i,
{
    if i >= pending.len() {
        None
    } else if pending[i].display_id == id {
        Some(i)
    } else {
        request_from(pending, id, i + 1)
    }
}

/// The requests without a display's own.
pub open spec fn requests_without(pending: Seq<PendingHostLayout>, id: u32) -> Seq<
    PendingHostLayout,
> {
    match request_from(pending, id, 0) {
        Some(i) => pending.remove(i),
        None => pending,
    }
}

/// The readers that wait behind a display's request.
pub open spec fn waiters_of(pending: Seq<PendingHostLayout>, id: u32) -> Seq<u64> {
    match request_from(pending, id, 0) {
        Some(i) => pending[i].waiters@,
        None => Seq::empty(),
    }
}

fn request_index(pending: &Vec<PendingHostLayout>, id: u32) -> (r: Option<usize>)
    ensures
        match r {
            Some(i) => request_from(pending@, id, 0) == Some(i as int) && i < pending@.len(),
            None => request_from(pending@, id, 0) is None,
        },
{
    let mut i: usize = 0;
    while i < pending.len()
        invariant
            i <= pending@.len(),
            request_from(pending@, id, i as int) == request_from(pending@, id, 0),
        decreases pending@.len() - i,
    {
        if pending[i].display_id == id {
            return Some(i);
        }
        i += 1;
    }
    None
}

/// Take a display's request, if it has one.
pub fn take_request(pending: &mut Vec<PendingHostLayout>, id: u32) -> (r: Option<
    PendingHostLayout,
>)
    ensures
        final(pending)@ == requests_without(old(pending)@, id),
        match request_from(old(pending)@, id, 0) {
            Some(i) => r == Some(old(pending)@[i]),
            None => r is None,
        },
{
    match request_index(pending, id) {
        Some(i) => Some(pending.remove(i)),
        None => None,
    }
}

/// Readers of a display's geometry, and the answer they get.
#[derive(Debug)]
pub struct Answer {
    pub display_id: u32,
    pub waiters: Vec<u64>,
    pub geometry: (i32, i32, u32),
}

/// Outputs but for their captures.
pub open spec fn uncaptured(before: OutputNode, after: OutputNode) -> bool {
    &&& after.capture is None
    &&& after.id == before.id
    &&& after.name == before.name
    &&& after.pos == before.pos
    &&& after.mode == before.mode
    &&& after.scale_micro == before.scale_micro
    &&& after.frame_buffer == before.frame_buffer
    &&& after.frame_seq == before.frame_seq
    &&& after.target_seeded == before.target_seeded
    &&& after.content_hold_until == before.content_hold_until
}

/// A display's capture ended: its output stays, it is not alive, its outcome is cleared, and its
/// layout request is gone.
pub open spec fn capture_stopped(before: Compositor, after: Compositor, id: u32) -> bool {
    match wayland::index_of(before.nodes@, id) {
        None => after == before,
        Some(i) => {
            &&& after.nodes@ == before.nodes@.update(i, after.nodes@[i])
            &&& uncaptured(before.nodes@[i], after.nodes@[i])
            &&& after.windows == before.windows
            &&& after.pending_windows == before.pending_windows
            &&& after.host_layout_pending@ == requests_without(before.host_layout_pending@, id)
            &&& after.book.alive@ == before.book.alive@.remove(id)
            &&& after.book.errors@ == before.book.errors@.remove(id)
            &&& after.book.owners == before.book.owners
            &&& after.same_but_captures(before)
        },
    }
}

/// What a host's verdict on a layout request means for a capture configured at `want`: a size to
/// follow where the host declined and runs another one, else nothing.
pub open spec fn to_follow(realized: bool, want: (i32, i32), current: Option<(i32, i32)>) -> Option<
    (i32, i32),
> {
    if realized {
        None
    } else {
        match current {
            Some(c) => if c != want {
                Some(c)
            } else {
                None
            },
            None => None,
        }
    }
}

/// What the host's verdict on a layout request means for a capture configured at `want`:
/// `Some(size)` when it has to be re-sized to the mode the host kept, `None` when nothing changes:
/// the host applied the request, already runs that size, or its mode is unknown.
pub fn host_layout_resolution(
    realized: bool,
    want: (i32, i32),
    current: Option<(i32, i32)>,
) -> (r: Option<(i32, i32)>)
    ensures
        r == to_follow(realized, want, current),
{
    if realized {
        return None;
    }
    match current {
        Some(c) => if c.0 != want.0 || c.1 != want.1 {
            Some(c)
        } else {
            None
        },
        None => None,
    }
}

/// Following a host settles: at the size it kept, another verdict asks for nothing more.
pub proof fn following_converges(realized: bool, want: (i32, i32), current: Option<(i32, i32)>)
    ensures
        to_follow(realized, want, current) matches Some(size) ==> to_follow(
            realized,
            size,
            current,
        ) is None,
        to_follow(realized, want, current) is Some ==> current is Some,
{
}

/// The even number at or below another.
pub open spec fn even(v: i32) -> int {
    v - v as int % 2
}

/// The even number at or below another: 4:2:0 needs even dimensions.
pub fn make_even(v: i32) -> (r: i32)
    ensures
        r == even(v),
{
    let odd: i64 = (v as i64 + 0x1_0000_0000) % 2;
    (v as i64 - odd) as i32
}

/// A capture that has to follow the host: at which settings it restarts, and the caveat it then
/// carries.
#[derive(Debug)]
pub struct Restart {
    pub settings: RustCaptureSettings,
    pub caveat: String,
}

/// The caveat of a capture that follows the host.
pub open spec fn refusal_text(kept: (i32, i32), want: (i32, i32)) -> Seq<char> {
    "host kept "@ + text::signed_decimal(kept.0 as int) + "x"@ + text::signed_decimal(kept.1 as int)
        + " ("@ + text::signed_decimal(want.0 as int) + "x"@ + text::signed_decimal(want.1 as int)
        + " declined)"@
}

fn refusal_line(kept: (i32, i32), want: (i32, i32)) -> (s: String)
    ensures
        s@ == refusal_text(kept, want),
{
    let mut s = "host kept ".to_owned();
    append_signed(&mut s, kept.0 as i64);
    s.append("x");
    append_signed(&mut s, kept.1 as i64);
    s.append(" (");
    append_signed(&mut s, want.0 as i64);
    s.append("x");
    append_signed(&mut s, want.1 as i64);
    s.append(" declined)");
    s
}

/// A capture's caveat ahead of the one its start came up with.
pub fn join_caveats(first: String, own: Option<String>) -> (s: String)
    ensures
        s@ == match own {
            Some(e) => first@ + "; "@ + e@,
            None => first@,
        },
{
    match own {
        Some(e) => {
            let mut s = first;
            s.append("; ");
            s.append(e.as_str());
            s
        },
        None => first,
    }
}

impl Compositor {
    /// What no end of a capture touches.
    pub open spec fn same_but_captures(self, other: Compositor) -> bool {
        &&& self.settings == other.settings
        &&& self.use_gpu == other.use_gpu
        &&& self.render_node_path == other.render_node_path
        &&& self.auto_gpu_selected == other.auto_gpu_selected
        &&& self.host_outputs == other.host_outputs
        &&& self.render_cursor_on_framebuffer == other.render_cursor_on_framebuffer
    }

    /// The geometry of a display: the live capture's size and scale, else the output's current
    /// mode, else zeros for an unknown display.
    pub fn realized_geometry(&self, display_id: u32) -> (g: (i32, i32, u32))
        ensures
            g == geometry_of(self.nodes@, display_id),
    {
        match node_idx_for_id(&self.nodes, display_id) {
            None => (0, 0, 0),
            Some(i) => match &self.nodes[i].capture {
                Some(c) => (c.settings.width, c.settings.height, c.settings.scale_micro),
                None => match self.nodes[i].mode {
                    Some(m) => (m.w, m.h, self.nodes[i].scale_micro),
                    None => (0, 0, 0),
                },
            },
        }
    }

    /// Stop the capture bound to a display, leaving the output (and every other display's
    /// capture) running. Readers parked behind its layout request are answered with what the
    /// output shows.
    pub fn stop_capture_on_display(&mut self, display_id: u32) -> (r: (Option<WlCapture>, Answer))
        ensures
            capture_stopped(*old(self), *final(self), display_id),
            r.0 == match wayland::index_of(old(self).nodes@, display_id) {
                Some(i) => old(self).nodes@[i].capture,
                None => None,
            },
            r.1.display_id == display_id,
            r.1.waiters@ == if wayland::index_of(old(self).nodes@, display_id) is Some {
                waiters_of(old(self).host_layout_pending@, display_id)
            } else {
                Seq::empty()
            },
            r.1.geometry == geometry_of(final(self).nodes@, display_id),
    {
        let idx: usize = match node_idx_for_id(&self.nodes, display_id) {
            None => {
                return (
                    None,
                    Answer { display_id, waiters: Vec::new(), geometry: (0, 0, 0) },
                );
            },
            Some(i) => i,
        };
        let ghost nodes = self.nodes@;
        let node = &mut self.nodes[idx];
        let capture = node.capture.take();
        assert(self.nodes@ =~= nodes.update(idx as int, self.nodes@[idx as int]));
        let _ = self.book.alive.remove(&display_id);
        set_wayland_capture_err(&mut self.book, display_id, None);
        assert(self.book.alive@ =~= old(self).book.alive@.remove(display_id));
        let waiters: Vec<u64> = match take_request(&mut self.host_layout_pending, display_id) {
            Some(p) => p.waiters,
            None => Vec::new(),
        };
        assert(waiters@ =~= waiters_of(old(self).host_layout_pending@, display_id));
        let geometry = self.realized_geometry(display_id);
        (capture, Answer { display_id, waiters, geometry })
    }

    /// The windows of an output that goes, put on the primary: the `k`th of them is parked
    /// again where it would cover the screen the primary shows.
    pub open spec fn relocated(
        windows: Seq<Window>,
        id: u32,
        covers: Seq<bool>,
        primary: (i32, i32),
        parking: (i32, i32),
        i: int,
    ) -> Window {
        let w = windows[i];
        if w.output != id {
            w
        } else if covers[layout::windows_on(windows, id, i) as int] {
            Window { output: 0, parked: true, x: parking.0, y: parking.1, ..w }
        } else {
            Window { output: 0, parked: false, x: primary.0, y: primary.1, ..w }
        }
    }

    /// Destroy a secondary output: end its capture, relocate its windows onto the primary, and
    /// retract it. The primary (id 0) is refused, as is an unknown one. `covers` says of each of
    /// its windows whether it would cover the screen the primary shows, `parking` where such a
    /// window is mapped.
    pub fn destroy_output_on(
        &mut self,
        id: u32,
        covers: &[bool],
        parking: (i32, i32),
    ) -> (r: Option<(Option<WlCapture>, Answer)>)
        requires
            covers@.len() == layout::windows_on(old(self).windows@, id, old(self).windows@.len() as int),
            wayland::index_of(old(self).nodes@, 0) is Some,
        ensures
            r is Some <==> id != 0 && wayland::index_of(old(self).nodes@, id) is Some,
            r is None ==> *final(self) == *old(self),
            r matches Some((capture, answer)) ==> {
                let i = wayland::index_of(old(self).nodes@, id)->0;
                let primary = old(self).nodes@[wayland::index_of(old(self).nodes@, 0)->0].pos;
                &&& capture == old(self).nodes@[i].capture
                &&& answer.display_id == id
                &&& answer.waiters@ == waiters_of(old(self).host_layout_pending@, id)
                &&& answer.geometry == match old(self).nodes@[i].mode {
                    Some(m) => (m.w, m.h, old(self).nodes@[i].scale_micro),
                    None => (0, 0, 0),
                }
                &&& final(self).nodes@ == old(self).nodes@.remove(i)
                &&& final(self).windows@.len() == old(self).windows@.len()
                &&& forall|k: int|
                    0 <= k < old(self).windows@.len() ==> #[trigger] final(self).windows@[k]
                        == Compositor::relocated(
                        old(self).windows@,
                        id,
                        covers@,
                        primary,
                        parking,
                        k,
                    )
                &&& final(self).pending_windows@ == old(self).pending_windows@.map_values(
                    |w: Window|
                        if w.output == id {
                            Window { output: 0, ..w }
                        } else {
                            w
                        },
                )
                &&& final(self).host_layout_pending@ == requests_without(
                    old(self).host_layout_pending@,
                    id,
                )
                &&& final(self).book.alive@ == old(self).book.alive@.remove(id)
                &&& final(self).book.errors@ == old(self).book.errors@.remove(id)
                &&& final(self).book.owners@ == old(self).book.owners@.remove(id)
            },
            final(self).same_but_captures(*old(self)),
    {
        if id == 0 {
            return None;
        }
        let idx: usize = match node_idx_for_id(&self.nodes, id) {
            None => {
                return None;
            },
            Some(i) => i,
        };
        let ghost nodes = self.nodes@;
        let primary: (i32, i32) = match node_idx_for_id(&self.nodes, 0) {
            Some(p) => self.nodes[p].pos,
            None => (0, 0),
        };
        let (capture, answer) = self.stop_capture_on_display(id);
        proof {
            same_ids_same_index(nodes, self.nodes@, id, 0);
        }
        let _ = self.book.owners.remove(&id);
        assert(self.book.owners@ =~= old(self).book.owners@.remove(id));
        let ghost windows = self.windows@;
        let ghost stopped = *self;
        let mut k: usize = 0;
        let mut nth: usize = 0;
        while k < self.windows.len()
            invariant
                k <= self.windows@.len(),
                self.windows@.len() == windows.len(),
                nth == layout::windows_on(windows, id, k as int),
                nth <= k,
                id != 0,
                covers@.len() == layout::windows_on(windows, id, windows.len() as int),
                forall|j: int| k <= j < windows.len() ==> self.windows@[j] == windows[j],
                forall|j: int|
                    0 <= j < k ==> #[trigger] self.windows@[j] == Compositor::relocated(
                        windows,
                        id,
                        covers@,
                        primary,
                        parking,
                        j,
                    ),
                self.nodes == stopped.nodes,
                self.pending_windows == stopped.pending_windows,
                self.host_layout_pending == stopped.host_layout_pending,
                self.book == stopped.book,
                self.same_but_captures(stopped),
            decreases self.windows@.len() - k,
        {
            let w: Window = self.windows[k];
            if w.output == id {
                proof {
                    counts_grow(windows, id, k + 1, windows.len() as int);
                }
                if covers[nth] {
                    self.windows.set(
                        k,
                        Window { output: 0, parked: true, x: parking.0, y: parking.1, ..w },
                    );
                } else {
                    self.windows.set(
                        k,
                        Window { output: 0, parked: false, x: primary.0, y: primary.1, ..w },
                    );
                }
                nth += 1;
            }
            k += 1;
        }
        let ghost pending = self.pending_windows@;
        let ghost relocated = self.windows@;
        let mut m: usize = 0;
        while m < self.pending_windows.len()
            invariant
                m <= self.pending_windows@.len(),
                self.pending_windows@.len() == pending.len(),
                forall|j: int|
                    0 <= j < pending.len() ==> #[trigger] self.pending_windows@[j] == if j < m
                        && pending[j].output == id {
                        Window { output: 0, ..pending[j] }
                    } else {
                        pending[j]
                    },
                self.windows@ == relocated,
                self.nodes == stopped.nodes,
                self.host_layout_pending == stopped.host_layout_pending,
                self.book == stopped.book,
                self.same_but_captures(stopped),
            decreases self.pending_windows@.len() - m,
        {
            let w: Window = self.pending_windows[m];
            if w.output == id {
                self.pending_windows.set(m, Window { output: 0, ..w });
            }
            m += 1;
        }
        assert(self.pending_windows@ =~= pending.map_values(
            |w: Window|
                if w.output == id {
                    Window { output: 0, ..w }
                } else {
                    w
                },
        ));
        let _ = self.nodes.remove(idx);
        assert(self.nodes@ =~= nodes.remove(idx as int));
        Some((capture, answer))
    }

    /// Settle a display's layout request that the host has ruled on: what the readers behind it
    /// wait for, and whether the capture has to restart at the size the host kept. H.264 rounds
    /// an odd size down; a size that comes to the one requested is not asked for again.
    pub fn settle_host_layout(
        &mut self,
        display_id: u32,
        realized: bool,
        current: Option<(i32, i32)>,
    ) -> (r: Option<(Vec<u64>, Option<Restart>)>)
        ensures
            final(self).host_layout_pending@ == requests_without(
                old(self).host_layout_pending@,
                display_id,
            ),
            final(self).nodes == old(self).nodes,
            final(self).windows == old(self).windows,
            final(self).pending_windows == old(self).pending_windows,
            final(self).book == old(self).book,
            final(self).same_but_captures(*old(self)),
            r is Some <==> request_from(old(self).host_layout_pending@, display_id, 0) is Some,
            r matches Some((waiters, restart)) ==> {
                let want =
                    old(self).host_layout_pending@[request_from(
                    old(self).host_layout_pending@,
                    display_id,
                    0,
                )->0].want;
                &&& waiters@ == waiters_of(old(self).host_layout_pending@, display_id)
                &&& match old(self).restart_for(display_id, to_follow(realized, want, current), want) {
                    Some((settings, kept)) => restart is Some && restart->0.settings == settings
                        && restart->0.caveat@ == refusal_text(kept, want),
                    None => restart is None,
                }
            },
    {
        let pending = match take_request(&mut self.host_layout_pending, display_id) {
            None => {
                return None;
            },
            Some(p) => p,
        };
        let want: (i32, i32) = pending.want;
        let mut restart: Option<Restart> = None;
        if let Some((rw, rh)) = host_layout_resolution(realized, want, current) {
            if let Some(i) = node_idx_for_id(&self.nodes, display_id) {
                if let Some(cap) = &self.nodes[i].capture {
                    let followed: (i32, i32) = if cap.settings.output_mode == 1 {
                        (make_even(rw), make_even(rh))
                    } else {
                        (rw, rh)
                    };
                    if followed.0 != want.0 || followed.1 != want.1 {
                        let mut settings = cap.settings.clone();
                        settings.width = rw;
                        settings.height = rh;
                        restart = Some(Restart { settings, caveat: refusal_line((rw, rh), want) });
                    }
                }
            }
        }
        Some((pending.waiters, restart))
    }

    /// The settings a capture restarts at to follow the host, and the size the host kept.
    pub open spec fn restart_for(
        self,
        id: u32,
        follow: Option<(i32, i32)>,
        want: (i32, i32),
    ) -> Option<(RustCaptureSettings, (i32, i32))> {
        match (follow, wayland::index_of(self.nodes@, id)) {
            (Some(kept), Some(i)) => match self.nodes@[i].capture {
                Some(cap) => {
                    let followed = if cap.settings.output_mode == 1 {
                        (even(kept.0) as i32, even(kept.1) as i32)
                    } else {
                        kept
                    };
                    if followed != want {
                        Some(
                            (
                                RustCaptureSettings {
                                    width: kept.0,
                                    height: kept.1,
                                    ..cap.settings
                                },
                                kept,
                            ),
                        )
                    } else {
                        None
                    }
                },
                None => None,
            },
            _ => None,
        }
    }
}

/// A capture follows the mode of its host once: at the size it then asks for, which is even for
/// H.264, that mode comes to nothing more.
pub proof fn followed_hosts_are_not_followed_again(
    before: Compositor,
    after: Compositor,
    id: u32,
    realized: bool,
    want: (i32, i32),
    current: Option<(i32, i32)>,
)
    requires
        before.restart_for(id, to_follow(realized, want, current), want) is Some,
        ({
            let (s, kept) = before.restart_for(id, to_follow(realized, want, current), want)->0;
            &&& wayland::index_of(after.nodes@, id) matches Some(i) && after.nodes@[i].capture matches Some(
                cap,
            ) && cap.settings.output_mode == s.output_mode
        }),
    ensures
        ({
            let (s, kept) = before.restart_for(id, to_follow(realized, want, current), want)->0;
            let asked = if s.output_mode == 1 {
                (even(s.width) as i32, even(s.height) as i32)
            } else {
                (s.width, s.height)
            };
            after.restart_for(id, to_follow(realized, asked, Some(kept)), asked) is None
        }),
{
}

proof fn counts_grow(windows: Seq<Window>, output: u32, n: int, m: int)
    requires
        0 <= n <= m <= windows.len(),
    ensures
        layout::windows_on(windows, output, n) <= layout::windows_on(windows, output, m),
    decreases m - n,
{
    if n < m {
        counts_grow(windows, output, n, m - 1);
    }
}

/// A capture that ended is not alive, has no reason recorded, and shows its output's own mode;
/// every other display's capture is as it was.
pub proof fn stopping_touches_one_display(before: Compositor, after: Compositor, id: u32, other: u32)
    requires
        wayland::distinct_ids(before.nodes@),
        wayland::index_of(before.nodes@, id) is Some,
        capture_stopped(before, after, id),
        other != id,
    ensures
        !after.book.alive@.contains(id),
        after.book.error_of(id) is None,
        after.book.alive@.contains(other) == before.book.alive@.contains(other),
        after.book.error_of(other) == before.book.error_of(other),
        geometry_of(after.nodes@, other) == geometry_of(before.nodes@, other),
{
    wayland::index_finds(before.nodes@, id, 0);
    let i = wayland::index_of(before.nodes@, id)->0;
    same_ids_same_index(before.nodes@, after.nodes@, other, 0);
    wayland::index_finds(before.nodes@, other, 0);
}

/// Outputs with the same ids in the same places are found alike.
pub proof fn same_ids_same_index(a: Seq<OutputNode>, b: Seq<OutputNode>, id: u32, from: int)
    requires
        a.len() == b.len(),
        forall|i: int| 0 <= i < a.len() ==> (#[trigger] a[i]).id == b[i].id,
        0 <= from <= a.len(),
    ensures
        wayland::index_from(a, id, from) == wayland::index_from(b, id, from),
    decreases a.len() - from,
{
    if from < a.len() {
        assert(a[from].id == b[from].id);
        same_ids_same_index(a, b, id, from + 1);
    }
}

/// The host compositor's connection ended: every capture it fed was stopped with that reason, and
/// nobody waits for its answers any more.
pub open spec fn host_lost(before: Compositor, after: Compositor) -> bool {
    &&& after.host_outputs is None
    &&& after.host_layout_pending@.len() == 0
    &&& after.nodes@.len() == before.nodes@.len()
    &&& forall|i: int|
        0 <= i < before.nodes@.len() ==> uncaptured(before.nodes@[i], #[trigger] after.nodes@[i])
    &&& after.windows == before.windows
    &&& after.pending_windows == before.pending_windows
    &&& after.settings == before.settings
    &&& after.use_gpu == before.use_gpu
    &&& after.render_node_path == before.render_node_path
    &&& after.auto_gpu_selected == before.auto_gpu_selected
    &&& after.render_cursor_on_framebuffer == before.render_cursor_on_framebuffer
    &&& after.book.owners == before.book.owners
    &&& forall|d: u32| #[trigger]
        after.book.alive@.contains(d) == (before.book.alive@.contains(d) && !wayland::captured(
            before.nodes@,
            d,
        ))
    &&& forall|d: u32|
        if wayland::captured(before.nodes@, d) {
            (#[trigger] after.book.error_of(d)) is Some && after.book.error_of(d)->0@ == HOST_LOST@
        } else {
            after.book.error_of(d) == before.book.error_of(d)
        }
}

/// Every answer tells what its display shows.
pub open spec fn tells_geometry(answers: Seq<Answer>, nodes: Seq<OutputNode>) -> bool {
    forall|k: int|
        0 <= k < answers.len() ==> (#[trigger] answers[k]).geometry == geometry_of(
            nodes,
            answers[k].display_id,
        )
}

/// The display is one of the first `n` outputs.
pub open spec fn among(nodes: Seq<OutputNode>, id: u32, n: int) -> bool {
    exists|j: int| 0 <= j < n && (#[trigger] nodes[j]).id == id
}

/// One of the first `n` outputs is this display's, and captured.
pub open spec fn captured_before(nodes: Seq<OutputNode>, id: u32, n: int) -> bool {
    exists|j: int| 0 <= j < n && (#[trigger] nodes[j]).id == id && nodes[j].capture is Some
}

/// A capture of one output that ended does not change what another display shows.
proof fn others_show_the_same(before: Seq<OutputNode>, after: Seq<OutputNode>, i: int, id: u32)
    requires
        0 <= i < before.len(),
        after == before.update(i, after[i]),
        after[i].id == before[i].id,
        id != before[i].id,
    ensures
        geometry_of(after, id) == geometry_of(before, id),
{
    same_ids_same_index(before, after, id, 0);
    wayland::index_finds(before, id, 0);
}

/// A request's readers were answered.
pub open spec fn answered(answers: Seq<Answer>, p: PendingHostLayout) -> bool {
    exists|k: int|
        0 <= k < answers.len() && (#[trigger] answers[k]).display_id == p.display_id
            && answers[k].waiters@ == p.waiters@
}

/// Every request was answered or is still there.
pub open spec fn all_served(
    requests: Seq<PendingHostLayout>,
    left: Seq<PendingHostLayout>,
    answers: Seq<Answer>,
) -> bool {
    forall|j: int|
        0 <= j < requests.len() ==> answered(answers, #[trigger] requests[j]) || left.contains(
            requests[j],
        )
}

proof fn served_with_an_answer(
    requests: Seq<PendingHostLayout>,
    left: Seq<PendingHostLayout>,
    answers: Seq<Answer>,
    at: Option<int>,
    answer: Answer,
)
    requires
        all_served(requests, left, answers),
        at matches Some(i) ==> {
            &&& 0 <= i < left.len()
            &&& answer.display_id == left[i].display_id
            &&& answer.waiters@ == left[i].waiters@
        },
    ensures
        all_served(
            requests,
            match at {
                Some(i) => left.remove(i),
                None => left,
            },
            answers.push(answer),
        ),
{
    let more = answers.push(answer);
    let rest = match at {
        Some(i) => left.remove(i),
        None => left,
    };
    assert forall|j: int| 0 <= j < requests.len() implies answered(more, #[trigger] requests[j])
        || rest.contains(requests[j]) by {
        let p = requests[j];
        if answered(answers, p) {
            let k = choose|k: int|
                0 <= k < answers.len() && (#[trigger] answers[k]).display_id == p.display_id
                    && answers[k].waiters@ == p.waiters@;
            assert(more[k] == answers[k]);
        } else {
            let k = choose|k: int| 0 <= k < left.len() && left[k] == p;
            match at {
                Some(i) => {
                    if k == i {
                        assert(more[answers.len() as int] == answer);
                    } else if k < i {
                        assert(rest[k] == p);
                    } else {
                        assert(rest[k - 1] == p);
                    }
                },
                None => {},
            }
        }
    }
}

proof fn request_is_inside(pending: Seq<PendingHostLayout>, id: u32, from: int)
    requires
        0 <= from <= pending.len(),
    ensures
        request_from(pending, id, from) matches Some(i) ==> from <= i < pending.len()
            && pending[i].display_id == id,
    decreases pending.len() - from,
{
    if from < pending.len() && pending[from].display_id != id {
        request_is_inside(pending, id, from + 1);
    }
}

/// The captures of the first `n` outputs.
pub open spec fn captures_of(nodes: Seq<OutputNode>, n: int) -> Seq<WlCapture>
    decreases n,
{
    if n <= 0 {
        Seq::empty()
    } else {
        match nodes[n - 1].capture {
            Some(c) => captures_of(nodes, n - 1).push(c),
            None => captures_of(nodes, n - 1),
        }
    }
}

/// Why a capture ends when its host goes.
pub const HOST_LOST: &'static str = "host compositor connection lost; capture stopped";

impl Compositor {
    /// Drop a host-capture session whose connection has ended, stopping every capture it fed: no
    /// input is written to a dead connection, and the next start reconnects. Returns the captures
    /// that ended and the answers to the readers that waited.
    pub fn reap_dead_host(&mut self, host_alive: bool) -> (r: (Vec<WlCapture>, Vec<Answer>))
        requires
            wayland::distinct_ids(old(self).nodes@),
        ensures
            host_alive || old(self).host_outputs is None ==> *final(self) == *old(self) && r.0@.len()
                == 0 && r.1@.len() == 0,
            !host_alive && old(self).host_outputs is Some ==> {
                &&& host_lost(*old(self), *final(self))
                &&& r.0@ == captures_of(old(self).nodes@, old(self).nodes@.len() as int)
                &&& forall|j: int|
                    0 <= j < old(self).host_layout_pending@.len() ==> answered(
                        r.1@,
                        #[trigger] old(self).host_layout_pending@[j],
                    )
                &&& tells_geometry(r.1@, final(self).nodes@)
            },
    {
        let mut ended: Vec<WlCapture> = Vec::new();
        let mut answers: Vec<Answer> = Vec::new();
        if host_alive || self.host_outputs.is_none() {
            return (ended, answers);
        }
        let ghost before = *self;
        let mut i: usize = 0;
        while i < self.nodes.len()
            invariant
                i <= self.nodes@.len(),
                self.nodes@.len() == before.nodes@.len(),
                wayland::distinct_ids(before.nodes@),
                forall|j: int|
                    0 <= j < i ==> uncaptured(before.nodes@[j], #[trigger] self.nodes@[j]),
                forall|j: int|
                    i <= j < before.nodes@.len() ==> #[trigger] self.nodes@[j] == before.nodes@[j],
                self.windows == before.windows,
                self.pending_windows == before.pending_windows,
                self.book.owners == before.book.owners,
                self.same_but_captures(before),
                ended@ == captures_of(before.nodes@, i as int),
                all_served(before.host_layout_pending@, self.host_layout_pending@, answers@),
                tells_geometry(answers@, self.nodes@),
                forall|k: int|
                    0 <= k < answers@.len() ==> among(
                        before.nodes@,
                        (#[trigger] answers@[k]).display_id,
                        i as int,
                    ),
                forall|d: u32| #[trigger]
                    self.book.alive@.contains(d) == (before.book.alive@.contains(d)
                        && !captured_before(before.nodes@, d, i as int)),
                forall|d: u32|
                    if captured_before(before.nodes@, d, i as int) {
                        (#[trigger] self.book.error_of(d)) is Some && self.book.error_of(d)->0@
                            == HOST_LOST@
                    } else {
                        self.book.error_of(d) == before.book.error_of(d)
                    },
            decreases self.nodes@.len() - i,
        {
            let ghost was = *self;
            if self.nodes[i].capture.is_some() {
                let id: u32 = self.nodes[i].id;
                proof {
                    wayland::index_finds(self.nodes@, id, 0);
                    assert(before.nodes@[i as int].id == id);
                    assert(before.nodes@[i as int].capture is Some);
                }
                let (cap, answer) = self.stop_capture_on_display(id);
                assert(wayland::index_of(was.nodes@, id) == Some(i as int));
                if let Some(c) = cap {
                    ended.push(c);
                }
                proof {
                    let left = was.host_layout_pending@;
                    request_is_inside(left, id, 0);
                    served_with_an_answer(
                        before.host_layout_pending@,
                        left,
                        answers@,
                        request_from(left, id, 0),
                        answer,
                    );
                }
                let ghost served = answers@;
                answers.push(answer);
                set_wayland_capture_err(&mut self.book, id, Some(HOST_LOST.to_owned()));
                proof {
                    assert forall|k: int| 0 <= k < answers@.len() implies (
                    #[trigger] answers@[k]).geometry == geometry_of(
                        self.nodes@,
                        answers@[k].display_id,
                    ) by {
                        if k < served.len() {
                            let d = answers@[k].display_id;
                            assert(answers@[k] == served[k]);
                            assert(among(before.nodes@, d, i as int));
                            let j = choose|j: int|
                                0 <= j < i && (#[trigger] before.nodes@[j]).id == d;
                            assert(before.nodes@[j].id != before.nodes@[i as int].id);
                            others_show_the_same(was.nodes@, self.nodes@, i as int, d);
                        }
                    }
                    assert forall|k: int| 0 <= k < answers@.len() implies among(
                        before.nodes@,
                        (#[trigger] answers@[k]).display_id,
                        i + 1,
                    ) by {
                        if k < served.len() {
                            assert(answers@[k] == served[k]);
                        } else {
                            assert(before.nodes@[i as int].id == id);
                        }
                    }
                }
            }
            proof {
                assert forall|d: u32|
                    captured_before(before.nodes@, d, i + 1) == (captured_before(
                        before.nodes@,
                        d,
                        i as int,
                    ) || (before.nodes@[i as int].id == d && before.nodes@[i as int].capture is Some)) by {
                    if captured_before(before.nodes@, d, i as int) {
                        let j = choose|j: int|
                            0 <= j < i && (#[trigger] before.nodes@[j]).id == d
                                && before.nodes@[j].capture is Some;
                        assert(0 <= j < i + 1);
                    }
                }
                assert forall|d: u32|
                    if captured_before(before.nodes@, d, i + 1) {
                        (#[trigger] self.book.error_of(d)) is Some && self.book.error_of(d)->0@
                            == HOST_LOST@
                    } else {
                        self.book.error_of(d) == before.book.error_of(d)
                    } by {
                    if !(before.nodes@[i as int].id == d && before.nodes@[i as int].capture is Some) {
                        assert(self.book.error_of(d) == was.book.error_of(d));
                    }
                }
            }
            i += 1;
        }
        self.host_outputs = None;
        assert forall|d: u32|
            captured_before(before.nodes@, d, i as int) == wayland::captured(before.nodes@, d) by {
            if captured_before(before.nodes@, d, i as int) {
                let j = choose|j: int|
                    0 <= j < i && (#[trigger] before.nodes@[j]).id == d
                        && before.nodes@[j].capture is Some;
                assert(before.nodes@[j].id == d);
            }
        }
        let ghost nodes = self.nodes;
        let ghost book = self.book;

        while self.host_layout_pending.len() > 0
            invariant
                self.nodes == nodes,
                self.book == book,
                self.windows == before.windows,
                self.pending_windows == before.pending_windows,
                self.settings == before.settings,
                self.use_gpu == before.use_gpu,
                self.render_node_path == before.render_node_path,
                self.auto_gpu_selected == before.auto_gpu_selected,
                self.render_cursor_on_framebuffer == before.render_cursor_on_framebuffer,
                self.host_outputs is None,
                tells_geometry(answers@, self.nodes@),
                all_served(before.host_layout_pending@, self.host_layout_pending@, answers@),
            decreases self.host_layout_pending@.len(),
        {
            let ghost left = self.host_layout_pending@;
            let p = self.host_layout_pending.remove(0);
            let geometry = self.realized_geometry(p.display_id);
            let answer = Answer { display_id: p.display_id, waiters: p.waiters, geometry };
            proof {
                served_with_an_answer(
                    before.host_layout_pending@,
                    left,
                    answers@,
                    Some(0),
                    answer,
                );
            }
            answers.push(answer);
        }
        (ended, answers)
    }
}

} // verus!
