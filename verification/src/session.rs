//! The lifecycle of captures: which display's pipeline runs, who may stop it, what its last start
//! came to, and what a stop has to tear down.

use vstd::prelude::*;
use vstd::string::*;
use std::collections::{HashMap, HashSet};
use crate::settings::{LiveTunables, RustCaptureSettings};
use crate::text;
use crate::text::{chars_of, parse_signed32, starts_with};

verus! {

broadcast use vstd::std_specs::hash::group_hash_axioms;

/// What is known of the Wayland captures of a process.
pub struct CaptureBook {
    /// The displays whose pipeline runs.
    pub alive: HashSet<u32>,
    /// What the last start of a display came to, where that was not clean: why it failed, or the
    /// caveat it came up with.
    pub errors: HashMap<u32, String>,
    /// Which handle owns a display's capture: only the owner may stop it.
    pub owners: HashMap<u32, u64>,
}

/// What a capture does.
#[derive(Clone, Copy, Debug, PartialEq, Eq, Structural)]
pub enum CaptureState {
    /// The pipeline is live.
    Running,
    /// A start left no live pipeline.
    Failed,
    /// Never started, or stopped clean.
    Idle,
}

impl CaptureState {
    /// The state's name.
    pub open spec fn text(self) -> Seq<char> {
        match self {
            CaptureState::Running => "running"@,
            CaptureState::Failed => "failed"@,
            CaptureState::Idle => "idle"@,
        }
    }

    /// The state's name.
    pub fn name(self) -> (s: String)
        ensures
            s@ == self.text(),
    {
        match self {
            CaptureState::Running => "running".to_owned(),
            CaptureState::Failed => "failed".to_owned(),
            CaptureState::Idle => "idle".to_owned(),
        }
    }

    /// A live pipeline runs, whatever caveat it came up with; without one a recorded reason is a
    /// failure.
    pub open spec fn of(running: bool, error: bool) -> CaptureState {
        if running {
            CaptureState::Running
        } else if error {
            CaptureState::Failed
        } else {
            CaptureState::Idle
        }
    }

    pub fn tell(running: bool, error: bool) -> (s: CaptureState)
        ensures
            s == CaptureState::of(running, error),
    {
        if running {
            CaptureState::Running
        } else if error {
            CaptureState::Failed
        } else {
            CaptureState::Idle
        }
    }
}

impl CaptureBook {
    pub fn new() -> (b: CaptureBook)
        ensures
            b.alive@ == Set::<u32>::empty(),
            b.errors@ == Map::<u32, String>::empty(),
            b.owners@ == Map::<u32, u64>::empty(),
    {
        CaptureBook { alive: HashSet::new(), errors: HashMap::new(), owners: HashMap::new() }
    }

    /// The reason recorded for a display.
    pub open spec fn error_of(&self, display_id: u32) -> Option<String> {
        if self.errors@.dom().contains(display_id) {
            Some(self.errors@[display_id])
        } else {
            None
        }
    }

    /// A handle owns a display's capture.
    pub open spec fn owned_by(&self, display_id: u32, owner: u64) -> bool {
        self.owners@.dom().contains(display_id) && self.owners@[display_id] == owner
    }

    fn is_owner(&self, display_id: u32, owner: u64) -> (b: bool)
        ensures
            b == self.owned_by(display_id, owner),
    {
        match self.owners.get(&display_id) {
            Some(o) => *o == owner,
            None => false,
        }
    }

    /// Give up a display's capture where the handle still owns it, so that a stale stop cannot
    /// tear down a capture that another handle just started.
    pub fn release(&mut self, display_id: u32, owner: u64) -> (owned: bool)
        ensures
            owned == old(self).owned_by(display_id, owner),
            final(self).owners@ == if owned {
                old(self).owners@.remove(display_id)
            } else {
                old(self).owners@
            },
            final(self).alive == old(self).alive,
            final(self).errors == old(self).errors,
    {
        if self.is_owner(display_id, owner) {
            let _ = self.owners.remove(&display_id);
            true
        } else {
            false
        }
    }
}

/// What a display's capture does, and the reason recorded for it.
pub fn wayland_capture_state(book: &CaptureBook, display_id: u32) -> (r: (String, Option<String>))
    ensures
        r.1 == book.error_of(display_id),
        r.0@ == CaptureState::of(
            book.alive@.contains(display_id),
            book.error_of(display_id) is Some,
        ).text(),
{
    let running = book.alive.contains(&display_id);
    let last_error: Option<String> = match book.errors.get(&display_id) {
        Some(e) => Some(e.clone()),
        None => None,
    };
    (CaptureState::tell(running, last_error.is_some()).name(), last_error)
}

/// Record, or clear with `None`, what the last start of a display came to.
pub fn set_wayland_capture_err(book: &mut CaptureBook, display_id: u32, err: Option<String>)
    ensures
        final(book).errors@ == match err {
            Some(e) => old(book).errors@.insert(display_id, e),
            None => old(book).errors@.remove(display_id),
        },
        final(book).alive == old(book).alive,
        final(book).owners == old(book).owners,
{
    match err {
        Some(e) => {
            let _ = book.errors.insert(display_id, e);
        },
        None => {
            let _ = book.errors.remove(&display_id);
        },
    }
    assert(err is None ==> book.errors@ =~= old(book).errors@.remove(display_id));
}

/// Recording an outcome for one display leaves what every other display reports as it was.
pub proof fn outcomes_are_told_apart(
    before: CaptureBook,
    after: CaptureBook,
    display_id: u32,
    err: Option<String>,
    other: u32,
)
    requires
        other != display_id,
        after.alive@ == before.alive@,
        after.errors@ == match err {
            Some(e) => before.errors@.insert(display_id, e),
            None => before.errors@.remove(display_id),
        },
    ensures
        after.error_of(display_id) == err,
        after.error_of(other) == before.error_of(other),
        after.alive@.contains(other) == before.alive@.contains(other),
{
}

/// Whether a capture goes through Wayland: an explicit choice wins, and without one the session
/// has to expose a Wayland display.
pub fn want_wayland(explicit: Option<bool>, wayland_display: Option<&str>) -> (b: bool)
    ensures
        b == match explicit {
            Some(e) => e,
            None => wayland_display is Some && wayland_display->0@.len() != 0,
        },
{
    match explicit {
        Some(e) => e,
        None => match wayland_display {
            Some(v) => v.unicode_len() != 0,
            None => false,
        },
    }
}

/// The number of a render node's path.
pub open spec fn node_number(path: Seq<char>) -> Option<int> {
    if text::opens_with(path, "/dev/dri/renderD"@) {
        text::signed32(path.skip("/dev/dri/renderD"@.len() as int))
    } else {
        None
    }
}

/// The number of a render node's path.
pub fn render_node_number(path: &str) -> (r: Option<i32>)
    ensures
        match r {
            Some(n) => node_number(path@) == Some(n as int),
            None => node_number(path@) is None,
        },
{
    let p = chars_of(path);
    let key = chars_of("/dev/dri/renderD");
    if starts_with(p.as_slice(), key.as_slice()) {
        let rest = vstd::slice::slice_subrange(p.as_slice(), key.len(), p.len());
        assert(rest@ =~= path@.skip("/dev/dri/renderD"@.len() as int));
        parse_signed32(rest)
    } else {
        None
    }
}

/// The encode device that a settings value comes to: one that was chosen stays; one that was not
/// is filled from a render node that was picked, where its path tells a number.
pub open spec fn filled_index(index: i32, picked: Option<Seq<char>>) -> int {
    if index < -1 && picked is Some && node_number(picked->0) is Some {
        node_number(picked->0)->0 - 128
    } else {
        index as int
    }
}

/// Fill the encode device from a render node that was picked. An operator's explicit choice (-1
/// software, 0 and up a device) always wins.
pub fn fill_encode_index(index: i32, picked: Option<&str>) -> (r: i32)
    requires
        picked is Some && node_number(picked->0@) is Some ==> node_number(picked->0@)->0 - 128
            >= i32::MIN,
    ensures
        r == filled_index(
            index,
            match picked {
                Some(p) => Some(p@),
                None => None,
            },
        ),
{
    if index < -1 {
        if let Some(path) = picked {
            if let Some(n) = render_node_number(path) {
                return n - 128;
            }
        }
    }
    index
}

/// The render node a compositor is created on, and whether it was picked by an auto-GPU request:
/// an explicit node, then the pick, then the encoder's node; empty selects software.
pub fn choose_render_node(explicit_node: String, picked: Option<String>, fallback_node: String) -> (r: (
    String,
    bool,
))
    ensures
        r == if explicit_node@.len() != 0 {
            (explicit_node, false)
        } else {
            match picked {
                Some(p) => (p, true),
                None => (fallback_node, false),
            }
        },
{
    if explicit_node.as_str().unicode_len() != 0 {
        return (explicit_node, false);
    }
    match picked {
        Some(p) => (p, true),
        None => (fallback_node, false),
    }
}

/// The initial size of the primary output: a fallback where none was given.
pub fn initial_size(width: i32, height: i32) -> (r: (i32, i32))
    ensures
        r.0 == if width > 0 {
            width
        } else {
            1024
        },
        r.1 == if height > 0 {
            height
        } else {
            768
        },
{
    (
        if width > 0 {
            width
        } else {
            1024
        },
        if height > 0 {
            height
        } else {
            768
        },
    )
}

/// What other threads change under an X11 capture.
#[derive(Debug)]
pub struct X11Controls {
    pub stop: bool,
    pub force_idr: bool,
    pub rate_dirty: bool,
    pub bitrate_kbps: i32,
    pub fps_milli: u32,
    pub vbv_mult_milli: i32,
    pub capture_cursor: bool,
    pub tunables_dirty: bool,
    pub tunables: Option<LiveTunables>,
    pub region_dirty: bool,
    pub region: (i32, i32, i32, i32),
}

/// The backend a capture runs on.
#[derive(Clone, Copy, Debug, PartialEq, Eq, Structural)]
pub enum CaptureBackend {
    Idle,
    X11,
    Wayland,
}

/// A live change that goes to the Wayland backend.
#[derive(Clone, Copy, Debug, PartialEq, Eq, Structural)]
pub enum Forward {
    /// Nothing is forwarded.
    Nowhere,
    /// To this display.
    Display(u32),
}

/// How the threads of a stopped capture are left.
#[derive(Clone, Copy, Debug, PartialEq, Eq, Structural)]
pub enum Join {
    /// They belong to the compositor.
    Never,
    /// The stop came on one of them, which cannot join itself: they exit on the stop flag.
    Detach,
    /// They are joined, the capture thread first.
    Wait,
}

/// What a stop has to do.
#[derive(Debug)]
pub struct StopPlan {
    /// The controls taken, their stop flag set.
    pub controls: Option<X11Controls>,
    /// The reference on the cursor monitor is given back.
    pub release_cursor: bool,
    /// The display whose capture is stopped.
    pub stop_display: Option<u32>,
    pub join: Join,
}

/// One capture handle: the active backend, the live X11 controls, and the threads by which a stop
/// that comes on one of them is told.
#[derive(Debug)]
pub struct ScreenCapture {
    pub id: u64,
    pub backend: CaptureBackend,
    /// This capture holds one reference on the shared cursor monitor. It is taken and given back
    /// together with the backend, so that acquire and release pair exactly.
    pub cursor_ref: bool,
    pub controls: Option<X11Controls>,
    pub cap_thread: Option<u64>,
    pub encode_thread: Option<u64>,
    pub deliver_thread: Option<u64>,
    /// The display this handle's capture is bound to.
    pub wl_display: u32,
    /// Why the X11 capture thread ended.
    pub err: Option<String>,
}

impl ScreenCapture {
    pub fn new(id: u64) -> (c: ScreenCapture)
        ensures
            c == (ScreenCapture {
                id,
                backend: CaptureBackend::Idle,
                cursor_ref: false,
                controls: None,
                cap_thread: None,
                encode_thread: None,
                deliver_thread: None,
                wl_display: 0,
                err: None,
            }),
    {
        ScreenCapture {
            id,
            backend: CaptureBackend::Idle,
            cursor_ref: false,
            controls: None,
            cap_thread: None,
            encode_thread: None,
            deliver_thread: None,
            wl_display: 0,
            err: None,
        }
    }

    /// A stop came on one of the capture's own threads. The encode thread's id may have come late.
    pub open spec fn on_own_thread(self, current: u64, late_encode: Option<u64>) -> bool {
        ||| self.cap_thread == Some(current)
        ||| self.deliver_thread == Some(current)
        ||| match self.encode_thread {
            Some(t) => t == current,
            None => late_encode == Some(current),
        }
    }

    /// This handle was stopped: what is left of it, and what the stop has to do.
    pub open spec fn stopped(
        self,
        book: CaptureBook,
        current: u64,
        late_encode: Option<u64>,
        after: ScreenCapture,
        book_after: CaptureBook,
        plan: StopPlan,
    ) -> bool {
        &&& after == ScreenCapture {
            id: self.id,
            backend: CaptureBackend::Idle,
            cursor_ref: false,
            controls: None,
            cap_thread: None,
            encode_thread: None,
            deliver_thread: None,
            wl_display: 0,
            err: None,
        }
        &&& plan.controls == match self.controls {
            Some(c) => Some(X11Controls { stop: true, ..c }),
            None => None,
        }
        &&& plan.release_cursor == self.cursor_ref
        &&& plan.stop_display == if self.backend == CaptureBackend::Wayland && book.owned_by(
            self.wl_display,
            self.id,
        ) {
            Some(self.wl_display)
        } else {
            None
        }
        &&& plan.join == if self.backend == CaptureBackend::Wayland {
            Join::Never
        } else if self.on_own_thread(current, late_encode) {
            Join::Detach
        } else {
            Join::Wait
        }
        &&& book_after.owners@ == if plan.stop_display is Some {
            book.owners@.remove(self.wl_display)
        } else {
            book.owners@
        }
        &&& book_after.alive == book.alive
        &&& book_after.errors == book.errors
    }

    /// Stop this capture. A Wayland capture tells the compositor only where this handle still
    /// owns the display. An X11 capture's threads are joined, unless the stop came on one of
    /// them. `late_encode` is the encode thread's id where it arrived after the start.
    pub fn stop_internal(
        &mut self,
        book: &mut CaptureBook,
        current: u64,
        late_encode: Option<u64>,
    ) -> (plan: StopPlan)
        ensures
            old(self).stopped(
                *old(book),
                current,
                late_encode,
                *final(self),
                *final(book),
                plan,
            ),
    {
        let mut controls: Option<X11Controls> = self.controls.take();
        controls = match controls {
            Some(c) => {
                let mut c = c;
                c.stop = true;
                Some(c)
            },
            None => None,
        };
        let encode: Option<u64> = match self.encode_thread {
            Some(t) => Some(t),
            None => late_encode,
        };
        let on_cap = match self.cap_thread {
            Some(t) => t == current,
            None => false,
        };
        let on_encode = match encode {
            Some(t) => t == current,
            None => false,
        };
        let on_deliver = match self.deliver_thread {
            Some(t) => t == current,
            None => false,
        };
        let same = on_cap || on_encode || on_deliver;
        let backend = self.backend;
        let release_cursor = self.cursor_ref;
        let wl_display: u32 = self.wl_display;
        self.backend = CaptureBackend::Idle;
        self.cursor_ref = false;
        self.controls = None;
        self.cap_thread = None;
        self.encode_thread = None;
        self.deliver_thread = None;
        self.wl_display = 0;
        self.err = None;
        let mut stop_display: Option<u32> = None;
        let join: Join;
        if backend == CaptureBackend::Wayland {
            if book.release(wl_display, self.id) {
                stop_display = Some(wl_display);
            }
            join = Join::Never;
        } else if same {
            join = Join::Detach;
        } else {
            join = Join::Wait;
        }
        StopPlan { controls, release_cursor, stop_display, join }
    }

    /// A start is a live restart of this handle's own Wayland capture.
    pub open spec fn restarts_live(
        self,
        book: CaptureBook,
        wayland: bool,
        display_id: u32,
    ) -> bool {
        &&& wayland
        &&& self.backend == CaptureBackend::Wayland
        &&& self.wl_display == display_id
        &&& book.owned_by(display_id, self.id)
        &&& book.alive@.contains(display_id)
    }

    /// Begin a start: a capture that runs already is stopped first, but for a live restart of this
    /// handle's own Wayland capture. That one is reconfigured in place, which keeps a compatible
    /// session alive.
    pub fn start_capture(
        &mut self,
        book: &mut CaptureBook,
        wayland: bool,
        display_id: u32,
        current: u64,
        late_encode: Option<u64>,
    ) -> (plan: Option<StopPlan>)
        ensures
            plan is None <==> old(self).restarts_live(*old(book), wayland, display_id),
            plan is None ==> *final(self) == *old(self) && *final(book) == *old(book),
            plan matches Some(p) ==> old(self).stopped(
                *old(book),
                current,
                late_encode,
                *final(self),
                *final(book),
                p,
            ),
    {
        if self.live_wayland_restart(book, wayland, display_id) {
            None
        } else {
            Some(self.stop_internal(book, current, late_encode))
        }
    }

    /// Whether a start is a live restart of this handle's own Wayland capture, which is
    /// reconfigured in place instead of stopped.
    pub fn live_wayland_restart(
        &self,
        book: &CaptureBook,
        wayland: bool,
        display_id: u32,
    ) -> (b: bool)
        ensures
            b == self.restarts_live(*book, wayland, display_id),
    {
        wayland && self.backend == CaptureBackend::Wayland && self.wl_display == display_id
            && book.is_owner(display_id, self.id) && book.alive.contains(&display_id)
    }

    /// The compositor took a start for this handle: it owns the display from now on.
    pub fn started_wayland(&mut self, book: &mut CaptureBook, display_id: u32)
        ensures
            *final(self) == (ScreenCapture {
                backend: CaptureBackend::Wayland,
                wl_display: display_id,
                ..*old(self)
            }),
            final(book).owners@ == old(book).owners@.insert(display_id, old(self).id),
            final(book).alive == old(book).alive,
            final(book).errors == old(book).errors,
    {
        let _ = book.owners.insert(display_id, self.id);
        self.backend = CaptureBackend::Wayland;
        self.wl_display = display_id;
    }

    /// The X11 capture's threads are up: the handle holds its controls and one reference on the
    /// cursor monitor.
    pub fn started_x11(
        &mut self,
        controls: X11Controls,
        cap_thread: Option<u64>,
        encode_thread: Option<u64>,
        deliver_thread: u64,
    )
        ensures
            *final(self) == (ScreenCapture {
                backend: CaptureBackend::X11,
                cursor_ref: true,
                controls: Some(controls),
                cap_thread,
                encode_thread,
                deliver_thread: Some(deliver_thread),
                err: None,
                ..*old(self)
            }),
    {
        self.backend = CaptureBackend::X11;
        self.cursor_ref = true;
        self.controls = Some(controls);
        self.cap_thread = cap_thread;
        self.encode_thread = encode_thread;
        self.deliver_thread = Some(deliver_thread);
        self.err = None;
    }

    /// An X11 capture's controls are live.
    pub open spec fn x11_running(self) -> bool {
        self.controls is Some && !self.controls->0.stop
    }

    /// Whether the pipeline runs: an X11 capture until its stop flag is set, a Wayland capture
    /// while this handle owns the display and the pipeline is alive.
    pub fn is_capturing(&self, book: &CaptureBook) -> (b: bool)
        ensures
            b == match self.backend {
                CaptureBackend::X11 => self.x11_running(),
                CaptureBackend::Wayland => book.owned_by(self.wl_display, self.id)
                    && book.alive@.contains(self.wl_display),
                CaptureBackend::Idle => false,
            },
    {
        match self.backend {
            CaptureBackend::X11 => match &self.controls {
                Some(c) => !c.stop,
                None => false,
            },
            CaptureBackend::Wayland => book.is_owner(self.wl_display, self.id)
                && book.alive.contains(&self.wl_display),
            CaptureBackend::Idle => false,
        }
    }

    /// What this capture does, and why it failed or what caveat it came up with.
    pub fn capture_state(&self, book: &CaptureBook, display_id: u32) -> (r: (
        String,
        Option<String>,
    ))
        ensures
            r.1 == match self.backend {
                CaptureBackend::X11 => self.err,
                CaptureBackend::Wayland => book.error_of(display_id),
                CaptureBackend::Idle => None,
            },
            r.0@ == match self.backend {
                CaptureBackend::X11 => CaptureState::of(self.x11_running(), self.err is Some),
                CaptureBackend::Wayland => CaptureState::of(
                    book.alive@.contains(display_id),
                    book.error_of(display_id) is Some,
                ),
                CaptureBackend::Idle => CaptureState::Idle,
            }.text(),
    {
        match self.backend {
            CaptureBackend::X11 => {
                let running = match &self.controls {
                    Some(c) => !c.stop,
                    None => false,
                };
                let err: Option<String> = match &self.err {
                    Some(e) => Some(e.clone()),
                    None => None,
                };
                (CaptureState::tell(running, err.is_some()).name(), err)
            },
            CaptureBackend::Wayland => wayland_capture_state(book, display_id),
            CaptureBackend::Idle => (CaptureState::Idle.name(), None),
        }
    }

    /// Where a live change goes that the X11 controls do not take.
    pub open spec fn forward(self) -> Forward {
        if self.backend == CaptureBackend::Wayland {
            Forward::Display(self.wl_display)
        } else {
            Forward::Nowhere
        }
    }

    /// The controls once a change was made to them, where an X11 capture runs.
    pub open spec fn with_controls(
        self,
        change: spec_fn(X11Controls) -> X11Controls,
    ) -> ScreenCapture {
        if self.backend == CaptureBackend::X11 && self.controls is Some {
            ScreenCapture { controls: Some(change(self.controls->0)), ..self }
        } else {
            self
        }
    }

    /// Ask the running capture for a keyframe.
    pub fn request_idr_frame(&mut self) -> (to: Forward)
        ensures
            *final(self) == old(self).with_controls(
                |c: X11Controls| X11Controls { force_idr: true, ..c },
            ),
            to == old(self).forward(),
    {
        match self.backend {
            CaptureBackend::X11 => {
                if let Some(c) = &mut self.controls {
                    c.force_idr = true;
                }
                Forward::Nowhere
            },
            CaptureBackend::Wayland => Forward::Display(self.wl_display),
            CaptureBackend::Idle => Forward::Nowhere,
        }
    }

    /// Apply a live target bitrate to the running capture.
    pub fn update_video_bitrate(&mut self, kbps: i32) -> (to: Forward)
        ensures
            *final(self) == old(self).with_controls(
                |c: X11Controls| X11Controls { bitrate_kbps: kbps, rate_dirty: true, ..c },
            ),
            to == old(self).forward(),
    {
        match self.backend {
            CaptureBackend::X11 => {
                if let Some(c) = &mut self.controls {
                    c.bitrate_kbps = kbps;
                    c.rate_dirty = true;
                }
                Forward::Nowhere
            },
            CaptureBackend::Wayland => Forward::Display(self.wl_display),
            CaptureBackend::Idle => Forward::Nowhere,
        }
    }

    /// Apply a live frame rate, at least one a second, to the running capture.
    pub fn update_framerate(&mut self, fps_milli: u32) -> (to: Forward)
        ensures
            *final(self) == old(self).with_controls(
                |c: X11Controls|
                    X11Controls {
                        fps_milli: if fps_milli < 1000 {
                            1000
                        } else {
                            fps_milli
                        },
                        rate_dirty: true,
                        ..c
                    },
            ),
            to == old(self).forward(),
    {
        match self.backend {
            CaptureBackend::X11 => {
                if let Some(c) = &mut self.controls {
                    c.fps_milli = if fps_milli < 1000 {
                        1000
                    } else {
                        fps_milli
                    };
                    c.rate_dirty = true;
                }
                Forward::Nowhere
            },
            CaptureBackend::Wayland => Forward::Display(self.wl_display),
            CaptureBackend::Idle => Forward::Nowhere,
        }
    }

    /// Apply a live buffer size, in thousandths of one frame's budget, to the running capture.
    pub fn update_vbv_multiplier(&mut self, multiplier_milli: i32) -> (to: Forward)
        ensures
            *final(self) == old(self).with_controls(
                |c: X11Controls|
                    X11Controls { vbv_mult_milli: multiplier_milli, rate_dirty: true, ..c },
            ),
            to == old(self).forward(),
    {
        match self.backend {
            CaptureBackend::X11 => {
                if let Some(c) = &mut self.controls {
                    c.vbv_mult_milli = multiplier_milli;
                    c.rate_dirty = true;
                }
                Forward::Nowhere
            },
            CaptureBackend::Wayland => Forward::Display(self.wl_display),
            CaptureBackend::Idle => Forward::Nowhere,
        }
    }

    /// Apply the live-tunable subset of a settings value to the running capture.
    pub fn update_tunables(&mut self, settings: &RustCaptureSettings) -> (to: Forward)
        ensures
            *final(self) == old(self).with_controls(
                |c: X11Controls|
                    X11Controls {
                        capture_cursor: settings.capture_cursor,
                        tunables: Some(LiveTunables::of(*settings)),
                        tunables_dirty: true,
                        ..c
                    },
            ),
            to == old(self).forward(),
    {
        let t = LiveTunables::from_settings(settings);
        match self.backend {
            CaptureBackend::X11 => {
                if let Some(c) = &mut self.controls {
                    c.capture_cursor = t.capture_cursor;
                    c.tunables = Some(t);
                    c.tunables_dirty = true;
                }
                Forward::Nowhere
            },
            CaptureBackend::Wayland => Forward::Display(self.wl_display),
            CaptureBackend::Idle => Forward::Nowhere,
        }
    }

    /// Move or resize the live X11 capture region; refused on Wayland, where the output is the
    /// region. The origin is kept at the root's or right of it.
    pub fn update_capture_region(&mut self, x: i32, y: i32, width: i32, height: i32) -> (ok: bool)
        ensures
            ok == (old(self).backend != CaptureBackend::Wayland),
            *final(self) == if ok && old(self).controls is Some {
                ScreenCapture {
                    controls: Some(
                        X11Controls {
                            region: (
                                if x > 0 {
                                    x
                                } else {
                                    0
                                },
                                if y > 0 {
                                    y
                                } else {
                                    0
                                },
                                width,
                                height,
                            ),
                            region_dirty: true,
                            ..old(self).controls->0
                        },
                    ),
                    ..*old(self)
                }
            } else {
                *old(self)
            },
    {
        if self.backend == CaptureBackend::Wayland {
            return false;
        }
        if let Some(c) = &mut self.controls {
            c.region = (
                if x > 0 {
                    x
                } else {
                    0
                },
                if y > 0 {
                    y
                } else {
                    0
                },
                width,
                height,
            );
            c.region_dirty = true;
        }
        true
    }

    /// A dropped handle releases what it holds: the stop flag is set, an owned display is
    /// stopped, and the reference on the cursor monitor is given back, both of the latter only
    /// while the interpreter lives. Returns the display to stop, and whether the reference goes
    /// back.
    pub fn release(&mut self, book: &mut CaptureBook, shutting_down: bool) -> (r: (
        Option<u32>,
        bool,
    ))
        ensures
            r.0 == if old(self).backend == CaptureBackend::Wayland && !shutting_down && old(
                book,
            ).owned_by(old(self).wl_display, old(self).id) {
                Some(old(self).wl_display)
            } else {
                None
            },
            r.1 == (old(self).cursor_ref && !shutting_down),
            *final(self) == (ScreenCapture {
                controls: match old(self).controls {
                    Some(c) => Some(X11Controls { stop: true, ..c }),
                    None => None,
                },
                cursor_ref: false,
                ..*old(self)
            }),
            final(book).owners@ == if r.0 is Some {
                old(book).owners@.remove(old(self).wl_display)
            } else {
                old(book).owners@
            },
            final(book).alive == old(book).alive,
            final(book).errors == old(book).errors,
    {
        if let Some(c) = &mut self.controls {
            c.stop = true;
        }
        let mut stop: Option<u32> = None;
        if self.backend == CaptureBackend::Wayland && !shutting_down {
            if book.release(self.wl_display, self.id) {
                stop = Some(self.wl_display);
            }
        }
        let had_ref = self.cursor_ref;
        self.cursor_ref = false;
        (stop, had_ref && !shutting_down)
    }
}

/// A handle that does not own a display cannot stop its capture: the owner's entry stays.
pub proof fn only_the_owner_stops(
    before: CaptureBook,
    after: CaptureBook,
    display_id: u32,
    owner: u64,
    stale: u64,
)
    requires
        before.owned_by(display_id, owner),
        stale != owner,
        after.owners@ == if before.owned_by(display_id, stale) {
            before.owners@.remove(display_id)
        } else {
            before.owners@
        },
    ensures
        after.owned_by(display_id, owner),
{
}

/// The displays that the exit sweep stops: those alive, and the primary in any case.
pub fn displays_to_sweep(alive: Vec<u32>) -> (r: Vec<u32>)
    ensures
        r@ == if alive@.contains(0) {
            alive@
        } else {
            alive@.push(0)
        },
{
    let mut r: Vec<u32> = alive;
    let mut i: usize = 0;
    while i < r.len()
        invariant
            i <= r@.len(),
            r@ == alive@,
            forall|j: int| 0 <= j < i ==> r@[j] != 0,
        decreases r@.len() - i,
    {
        if r[i] == 0 {
            return r;
        }
        i += 1;
    }
    r.push(0);
    r
}

/// Every capture was stopped: nothing is owned and nothing is alive.
pub fn clear_captures(book: &mut CaptureBook)
    ensures
        final(book).owners@ == Map::<u32, u64>::empty(),
        final(book).alive@ == Set::<u32>::empty(),
        final(book).errors == old(book).errors,
{
    book.owners.clear();
    book.alive.clear();
}

} // verus!
