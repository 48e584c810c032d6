//! Where injected input goes, and which surface is under the pointer.

use vstd::prelude::*;
use crate::pool::Rect;

verus! {

/// Who takes injected input: the host compositor that is captured, else the own seat.
#[derive(Clone, Copy, Debug, PartialEq, Eq, Structural)]
pub enum Taker {
    Host,
    Seat,
}

/// One key going down or up.
#[derive(Clone, Copy, Debug, PartialEq, Eq, Structural)]
pub struct KeyPress {
    pub scancode: u32,
    pub pressed: bool,
}

/// A key event as it is applied: any state but zero is a press.
pub open spec fn press_of(event: (u32, u32)) -> KeyPress {
    KeyPress { scancode: event.0, pressed: event.1 > 0 }
}

/// Who takes injected input.
pub fn taker(host: bool) -> (t: Taker)
    ensures
        t == if host {
            Taker::Host
        } else {
            Taker::Seat
        },
{
    if host {
        Taker::Host
    } else {
        Taker::Seat
    }
}

/// A run of key events as they are applied, in order.
pub fn key_presses(events: &Vec<(u32, u32)>) -> (keys: Vec<KeyPress>)
    ensures
        keys@ == events@.map_values(|e: (u32, u32)| press_of(e)),
{
    let mut keys: Vec<KeyPress> = Vec::new();
    let mut i: usize = 0;
    while i < events.len()
        invariant
            i <= events@.len(),
            keys@ == events@.take(i as int).map_values(|e: (u32, u32)| press_of(e)),
        decreases events@.len() - i,
    {
        let (scancode, state): (u32, u32) = events[i];
        keys.push(KeyPress { scancode, pressed: state > 0 });
        i += 1;
        assert(keys@ =~= events@.take(i as int).map_values(|e: (u32, u32)| press_of(e)));
    }
    assert(events@.take(i as int) =~= events@);
    keys
}

/// The window that a button event raises and focuses: the one under the pointer, when the button
/// goes down and no host takes the input.
pub fn window_to_focus(state: u32, host: bool, under: Option<u32>) -> (w: Option<u32>)
    ensures
        w == if state > 0 && !host {
            under
        } else {
            None
        },
{
    if state > 0 && !host {
        under
    } else {
        None
    }
}

/// The wheel's steps of a scroll, a notch being 120 of them and ten units of the scroll: towards
/// zero, and within what a step count holds.
pub open spec fn wheel_steps(value_milli: i64) -> int {
    let steps = if value_milli >= 0 {
        value_milli * 12 / 1000
    } else {
        -(-value_milli * 12 / 1000)
    };
    if steps > i32::MAX {
        i32::MAX as int
    } else if steps < i32::MIN {
        i32::MIN as int
    } else {
        steps
    }
}

fn steps_of(value_milli: i64) -> (n: i32)
    ensures
        n == wheel_steps(value_milli),
{
    let steps: i128 = if value_milli >= 0 {
        value_milli as i128 * 12 / 1000
    } else {
        -(-(value_milli as i128) * 12 / 1000)
    };
    if steps > 0x7fff_ffff {
        i32::MAX
    } else if steps < -0x8000_0000 {
        i32::MIN
    } else {
        steps as i32
    }
}

/// A scroll along one axis: its value in thousandths, and the wheel's steps.
#[derive(Clone, Copy, Debug, PartialEq, Eq, Structural)]
pub struct Scroll {
    pub value_milli: i64,
    pub steps: i32,
}

/// A scroll along one axis, where there is one.
pub open spec fn scroll_of(value_milli: i64) -> Option<Scroll> {
    if value_milli == 0 {
        None
    } else {
        Some(Scroll { value_milli, steps: wheel_steps(value_milli) as i32 })
    }
}

/// A scroll as the seat takes it, horizontal and vertical; nothing is sent where neither moves.
pub fn scroll_frame(x_milli: i64, y_milli: i64) -> (f: (Option<Scroll>, Option<Scroll>))
    ensures
        f == (scroll_of(x_milli), scroll_of(y_milli)),
{
    let horizontal = if x_milli == 0 {
        None
    } else {
        Some(Scroll { value_milli: x_milli, steps: steps_of(x_milli) })
    };
    let vertical = if y_milli == 0 {
        None
    } else {
        Some(Scroll { value_milli: y_milli, steps: steps_of(y_milli) })
    };
    (horizontal, vertical)
}

/// The stacking layer of a surface that belongs to no window.
#[derive(Clone, Copy, Debug, PartialEq, Eq, Structural)]
pub enum Layer {
    Background,
    Bottom,
    Top,
    Overlay,
}

/// A layer surface on an output, with its place relative to that output.
#[derive(Clone, Copy, Debug, PartialEq, Eq, Structural)]
pub struct LayerSurface {
    pub id: u32,
    pub layer: Layer,
    pub bbox: Rect,
}

/// What is under the pointer, and where it lies in the layout.
#[derive(Clone, Copy, Debug, PartialEq, Eq, Structural)]
pub enum Focus {
    Layer { id: u32, x: i64, y: i64 },
    Window { id: u32, x: i64, y: i64 },
}

/// A layer is in front of the windows.
pub open spec fn in_front(layer: Layer) -> bool {
    layer == Layer::Top || layer == Layer::Overlay
}

/// A rectangle holds a point: its right and bottom edges are outside.
pub open spec fn holds_point(r: Rect, x: int, y: int) -> bool {
    r.x <= x < r.x + r.w && r.y <= y < r.y + r.h
}

/// A surface is hit at a point of its output.
pub open spec fn hit(s: LayerSurface, front: bool, x: int, y: int) -> bool {
    in_front(s.layer) == front && holds_point(s.bbox, x, y)
}

/// The topmost of the first `n` surfaces that is hit, the last of them being the topmost.
pub open spec fn topmost(surfaces: Seq<LayerSurface>, front: bool, x: int, y: int, n: int) -> Option<
    LayerSurface,
>
    decreases n,
{
    if n <= 0 {
        None
    } else if hit(surfaces[n - 1], front, x, y) {
        Some(surfaces[n - 1])
    } else {
        topmost(surfaces, front, x, y, n - 1)
    }
}

fn layer_hit(surfaces: &Vec<LayerSurface>, front: bool, x: i32, y: i32) -> (s: Option<LayerSurface>)
    ensures
        s == topmost(surfaces@, front, x as int, y as int, surfaces@.len() as int),
{
    let mut n: usize = surfaces.len();
    while n > 0
        invariant
            n <= surfaces@.len(),
            topmost(surfaces@, front, x as int, y as int, n as int) == topmost(
                surfaces@,
                front,
                x as int,
                y as int,
                surfaces@.len() as int,
            ),
        decreases n,
    {
        let s: LayerSurface = surfaces[n - 1];
        let ahead = match s.layer {
            Layer::Top => true,
            Layer::Overlay => true,
            Layer::Bottom => false,
            Layer::Background => false,
        };
        let (px, py): (i64, i64) = (x as i64, y as i64);
        let (rx, ry): (i64, i64) = (s.bbox.x as i64, s.bbox.y as i64);
        let (rw, rh): (i64, i64) = (s.bbox.w as i64, s.bbox.h as i64);
        if ahead == front && rx <= px && px < rx + rw && ry <= py && py < ry + rh {
            return Some(s);
        }
        n -= 1;
    }
    None
}

/// A layer surface that is focused, its place moved to the layout by its output's.
pub open spec fn layer_focus(s: LayerSurface, origin: (i32, i32)) -> Focus {
    Focus::Layer { id: s.id, x: (s.bbox.x + origin.0) as i64, y: (s.bbox.y + origin.1) as i64 }
}

/// What is under the pointer: the surfaces in front, then the windows, then the surfaces behind.
pub open spec fn focus_of(
    surfaces: Seq<LayerSurface>,
    window: Option<Focus>,
    origin: (i32, i32),
    x: int,
    y: int,
) -> Option<Focus> {
    match topmost(surfaces, true, x, y, surfaces.len() as int) {
        Some(s) => Some(layer_focus(s, origin)),
        None => match window {
            Some(w) => Some(w),
            None => match topmost(surfaces, false, x, y, surfaces.len() as int) {
                Some(s) => Some(layer_focus(s, origin)),
                None => None,
            },
        },
    }
}

/// What is under the pointer. The surfaces are those of the output that it is on, whose place in
/// the layout is `origin`; `(x, y)` is the point relative to that output. `window` is the window
/// under the point, if any.
pub fn pointer_focus(
    surfaces: &Vec<LayerSurface>,
    window: Option<Focus>,
    origin: (i32, i32),
    x: i32,
    y: i32,
) -> (focus: Option<Focus>)
    ensures
        focus == focus_of(surfaces@, window, origin, x as int, y as int),
{
    let under = match layer_hit(surfaces, true, x, y) {
        Some(s) => Some(s),
        None => {
            if window.is_some() {
                return window;
            }
            layer_hit(surfaces, false, x, y)
        },
    };
    match under {
        Some(s) => Some(
            Focus::Layer {
                id: s.id,
                x: s.bbox.x as i64 + origin.0 as i64,
                y: s.bbox.y as i64 + origin.1 as i64,
            },
        ),
        None => None,
    }
}

/// A window is reached only where no surface in front of it is, and always then; a surface behind
/// only where there is no window either.
pub proof fn windows_lie_between_the_layers(
    surfaces: Seq<LayerSurface>,
    window: Option<Focus>,
    origin: (i32, i32),
    x: int,
    y: int,
)
    requires
        window is Some ==> window->0 is Window,
    ensures
        (focus_of(surfaces, window, origin, x, y) is Some && focus_of(
            surfaces,
            window,
            origin,
            x,
            y,
        )->0 is Window) <==> (window is Some && forall|i: int|
            0 <= i < surfaces.len() ==> !hit(#[trigger] surfaces[i], true, x, y)),
        focus_of(surfaces, window, origin, x, y) is None <==> (window is None && forall|i: int|
            0 <= i < surfaces.len() ==> !holds_point((#[trigger] surfaces[i]).bbox, x, y)),
{
    topmost_is_hit(surfaces, true, x, y, surfaces.len() as int);
    topmost_is_hit(surfaces, false, x, y, surfaces.len() as int);
    if focus_of(surfaces, window, origin, x, y) is None {
        assert forall|i: int| 0 <= i < surfaces.len() implies !holds_point(
            (#[trigger] surfaces[i]).bbox,
            x,
            y,
        ) by {
            assert(!hit(surfaces[i], true, x, y) && !hit(surfaces[i], false, x, y));
        }
    }
}

proof fn topmost_is_hit(surfaces: Seq<LayerSurface>, front: bool, x: int, y: int, n: int)
    requires
        0 <= n <= surfaces.len(),
    ensures
        match topmost(surfaces, front, x, y, n) {
            Some(s) => exists|i: int|
                0 <= i < n && #[trigger] surfaces[i] == s && hit(s, front, x, y),
            None => forall|i: int| 0 <= i < n ==> !hit(#[trigger] surfaces[i], front, x, y),
        },
    decreases n,
{
    if n > 0 {
        topmost_is_hit(surfaces, front, x, y, n - 1);
    }
}

} // verus!
