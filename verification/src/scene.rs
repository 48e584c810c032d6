//! What is drawn on an output, from the front to the back: the cursor, the watermark, the layers in
//! front of the windows, the windows with their popups, and the layers behind them.

use vstd::prelude::*;
use crate::input::{Layer, LayerSurface};

verus! {

/// The cursor that a client set.
#[derive(Clone, Copy, Debug, PartialEq, Eq, Structural)]
pub enum CursorIcon {
    /// One of the theme's, by its name.
    Named,
    /// A surface of the client's own.
    Surface,
    Hidden,
}

/// The cursor that is drawn or told.
#[derive(Clone, Copy, Debug, PartialEq, Eq, Structural)]
pub enum CursorSprite {
    Named,
    Surface,
    /// The theme's default.
    Default,
}

/// Where the pointer is relative to an output, in thousandths of a logical pixel, where it is on
/// that output; its right and bottom edges are outside.
pub open spec fn on_output(
    origin: (i32, i32),
    size: (i32, i32),
    x_milli: i64,
    y_milli: i64,
) -> Option<(int, int)> {
    let (x, y) = (x_milli - origin.0 * 1000, y_milli - origin.1 * 1000);
    if 0 <= x < size.0 * 1000 && 0 <= y < size.1 * 1000 {
        Some((x, y))
    } else {
        None
    }
}

/// Where the pointer is relative to an output, where it is on it.
pub fn pointer_local(
    origin: (i32, i32),
    size: (i32, i32),
    x_milli: i64,
    y_milli: i64,
) -> (p: Option<(i64, i64)>)
    ensures
        p is Some <==> on_output(origin, size, x_milli, y_milli) is Some,
        p matches Some((x, y)) ==> on_output(origin, size, x_milli, y_milli) == Some(
            (x as int, y as int),
        ),
{
    let x: i128 = x_milli as i128 - origin.0 as i128 * 1000;
    let y: i128 = y_milli as i128 - origin.1 as i128 * 1000;
    if 0 <= x && x < size.0 as i128 * 1000 && 0 <= y && y < size.1 as i128 * 1000 {
        Some((x as i64, y as i64))
    } else {
        None
    }
}

/// The cursor drawn on an output.
pub open spec fn sprite_of(
    burned_in: bool,
    pointer_here: bool,
    icon: Option<CursorIcon>,
) -> Option<CursorSprite> {
    if !burned_in || !pointer_here {
        None
    } else {
        match icon {
            Some(CursorIcon::Named) => Some(CursorSprite::Named),
            Some(CursorIcon::Surface) => Some(CursorSprite::Surface),
            Some(CursorIcon::Hidden) => None,
            None => Some(CursorSprite::Default),
        }
    }
}

/// The cursor drawn on an output: only where cursors are burned in, only on the output that the
/// pointer is on, and the theme's default until a client sets one.
pub fn cursor_sprite(burned_in: bool, pointer_here: bool, icon: Option<CursorIcon>) -> (s: Option<
    CursorSprite,
>)
    ensures
        s == sprite_of(burned_in, pointer_here, icon),
{
    if !burned_in || !pointer_here {
        return None;
    }
    match icon {
        Some(CursorIcon::Named) => Some(CursorSprite::Named),
        Some(CursorIcon::Surface) => Some(CursorSprite::Surface),
        Some(CursorIcon::Hidden) => None,
        None => Some(CursorSprite::Default),
    }
}

/// What is told to a consumer of cursors.
#[derive(Clone, Copy, Debug, PartialEq, Eq, Structural)]
pub enum ToldCursor {
    /// The one that a client set.
    Client(CursorIcon),
    /// The theme's default, as it is drawn while no client has set one.
    Default,
}

/// What a consumer that registers is told at once: the cursor that a client set, else the default,
/// so that it does not show a blank pointer until the first change.
pub fn cursor_on_register(icon: Option<CursorIcon>) -> (t: ToldCursor)
    ensures
        t == match icon {
            Some(i) => ToldCursor::Client(i),
            None => ToldCursor::Default,
        },
{
    match icon {
        Some(i) => ToldCursor::Client(i),
        None => ToldCursor::Default,
    }
}

/// What a registered consumer is told when a capture starts: the cursor that a client set, with the
/// primary display's capture.
pub fn cursor_on_start(display_id: u32, registered: bool, icon: Option<CursorIcon>) -> (t: Option<
    CursorIcon,
>)
    ensures
        t == if display_id == 0 && registered {
            icon
        } else {
            None
        },
{
    if display_id == 0 && registered {
        icon
    } else {
        None
    }
}

/// A window on an output, and how many popups it has.
#[derive(Clone, Copy, Debug, PartialEq, Eq, Structural)]
pub struct SceneWindow {
    pub id: u32,
    pub popups: u32,
}

/// One thing that is drawn.
#[derive(Clone, Copy, Debug, PartialEq, Eq, Structural)]
pub enum Element {
    Cursor(CursorSprite),
    Watermark,
    Layer { id: u32, layer: Layer },
    Popup { window: u32, nth: u32 },
    Window(u32),
}

/// The surfaces of a layer among the first `n`, the topmost first.
pub open spec fn layer_elements(surfaces: Seq<LayerSurface>, layer: Layer, n: int) -> Seq<Element>
    decreases n,
{
    if n <= 0 {
        seq![]
    } else if surfaces[n - 1].layer == layer {
        seq![Element::Layer { id: surfaces[n - 1].id, layer }] + layer_elements(
            surfaces,
            layer,
            n - 1,
        )
    } else {
        layer_elements(surfaces, layer, n - 1)
    }
}

/// A window's popups, then the window.
pub open spec fn window_elements(w: SceneWindow) -> Seq<Element> {
    Seq::new(w.popups as nat, |i: int| Element::Popup { window: w.id, nth: i as u32 }).push(
        Element::Window(w.id),
    )
}

/// The first `n` windows, the topmost first, each behind its popups.
pub open spec fn windows_elements(windows: Seq<SceneWindow>, n: int) -> Seq<Element>
    decreases n,
{
    if n <= 0 {
        seq![]
    } else {
        window_elements(windows[n - 1]) + windows_elements(windows, n - 1)
    }
}

/// What stands in front of the layers.
pub open spec fn front_elements(cursor: Option<CursorSprite>, watermark: bool) -> Seq<Element> {
    (match cursor {
        Some(c) => seq![Element::Cursor(c)],
        None => seq![],
    }) + (if watermark {
        seq![Element::Watermark]
    } else {
        seq![]
    })
}

/// Everything that is drawn, from the front to the back.
pub open spec fn drawn(
    cursor: Option<CursorSprite>,
    watermark: bool,
    surfaces: Seq<LayerSurface>,
    windows: Seq<SceneWindow>,
) -> Seq<Element> {
    let n = surfaces.len() as int;
    front_elements(cursor, watermark) + layer_elements(surfaces, Layer::Overlay, n)
        + layer_elements(surfaces, Layer::Top, n) + windows_elements(windows, windows.len() as int)
        + layer_elements(surfaces, Layer::Bottom, n) + layer_elements(
        surfaces,
        Layer::Background,
        n,
    )
}

fn push_layer(out: &mut Vec<Element>, surfaces: &Vec<LayerSurface>, layer: Layer)
    ensures
        final(out)@ == old(out)@ + layer_elements(surfaces@, layer, surfaces@.len() as int),
{
    let ghost whole = layer_elements(surfaces@, layer, surfaces@.len() as int);
    let mut n: usize = surfaces.len();
    while n > 0
        invariant
            n <= surfaces@.len(),
            out@ + layer_elements(surfaces@, layer, n as int) == old(out)@ + whole,
        decreases n,
    {
        let s: LayerSurface = surfaces[n - 1];
        let ghost before = out@;
        if s.layer == layer {
            out.push(Element::Layer { id: s.id, layer });
            assert(out@ + layer_elements(surfaces@, layer, n - 1) =~= before + layer_elements(
                surfaces@,
                layer,
                n as int,
            ));
        }
        n -= 1;
    }
    assert(out@ + layer_elements(surfaces@, layer, 0) =~= out@);
}

fn push_window(out: &mut Vec<Element>, w: SceneWindow)
    ensures
        final(out)@ == old(out)@ + window_elements(w),
{
    let mut i: u32 = 0;
    while i < w.popups
        invariant
            i <= w.popups,
            out@ == old(out)@ + Seq::new(
                i as nat,
                |j: int| Element::Popup { window: w.id, nth: j as u32 },
            ),
        decreases w.popups - i,
    {
        out.push(Element::Popup { window: w.id, nth: i });
        i += 1;
        assert(out@ =~= old(out)@ + Seq::new(
            i as nat,
            |j: int| Element::Popup { window: w.id, nth: j as u32 },
        ));
    }
    out.push(Element::Window(w.id));
    assert(out@ =~= old(out)@ + window_elements(w));
}

fn push_windows(out: &mut Vec<Element>, windows: &Vec<SceneWindow>)
    ensures
        final(out)@ == old(out)@ + windows_elements(windows@, windows@.len() as int),
{
    let ghost whole = windows_elements(windows@, windows@.len() as int);
    let mut n: usize = windows.len();
    while n > 0
        invariant
            n <= windows@.len(),
            out@ + windows_elements(windows@, n as int) == old(out)@ + whole,
        decreases n,
    {
        let ghost before = out@;
        push_window(out, windows[n - 1]);
        assert(out@ + windows_elements(windows@, n - 1) =~= before + windows_elements(
            windows@,
            n as int,
        ));
        n -= 1;
    }
    assert(out@ + windows_elements(windows@, 0) =~= out@);
}

/// List what is drawn on an output, from the front to the back. Surfaces and windows come in the
/// order they are stacked in, the topmost last.
pub fn scene(
    cursor: Option<CursorSprite>,
    watermark: bool,
    surfaces: &Vec<LayerSurface>,
    windows: &Vec<SceneWindow>,
) -> (out: Vec<Element>)
    ensures
        out@ == drawn(cursor, watermark, surfaces@, windows@),
{
    let mut out: Vec<Element> = Vec::new();
    if let Some(c) = cursor {
        out.push(Element::Cursor(c));
    }
    if watermark {
        out.push(Element::Watermark);
    }
    assert(out@ =~= front_elements(cursor, watermark));
    push_layer(&mut out, surfaces, Layer::Overlay);
    push_layer(&mut out, surfaces, Layer::Top);
    push_windows(&mut out, windows);
    push_layer(&mut out, surfaces, Layer::Bottom);
    push_layer(&mut out, surfaces, Layer::Background);
    out
}

/// How far back an element is drawn.
pub open spec fn depth(e: Element) -> int {
    match e {
        Element::Cursor(_) => 0,
        Element::Watermark => 1,
        Element::Layer { layer, .. } => match layer {
            Layer::Overlay => 2,
            Layer::Top => 3,
            Layer::Bottom => 5,
            Layer::Background => 6,
        },
        Element::Popup { .. } => 4,
        Element::Window(_) => 4,
    }
}

/// All elements are this far back.
spec fn all_at(s: Seq<Element>, d: int) -> bool {
    forall|i: int| 0 <= i < s.len() ==> depth(#[trigger] s[i]) == d
}

proof fn layers_at(surfaces: Seq<LayerSurface>, layer: Layer, n: int)
    requires
        0 <= n <= surfaces.len(),
    ensures
        all_at(
            layer_elements(surfaces, layer, n),
            depth(Element::Layer { id: 0, layer }),
        ),
    decreases n,
{
    if n > 0 {
        layers_at(surfaces, layer, n - 1);
    }
}

proof fn windows_at(windows: Seq<SceneWindow>, n: int)
    requires
        0 <= n <= windows.len(),
    ensures
        all_at(windows_elements(windows, n), 4),
    decreases n,
{
    if n > 0 {
        windows_at(windows, n - 1);
        let w = window_elements(windows[n - 1]);
        assert forall|i: int| 0 <= i < w.len() implies depth(#[trigger] w[i]) == 4 by {}
        let s = windows_elements(windows, n);
        assert forall|i: int| 0 <= i < s.len() implies depth(#[trigger] s[i]) == 4 by {
            if i < w.len() {
                assert(s[i] == w[i]);
            } else {
                assert(s[i] == windows_elements(windows, n - 1)[i - w.len()]);
            }
        }
    }
}

/// Nothing is drawn ahead of what stands in front of it: the cursor, the watermark, the overlay, the
/// top layer, the windows and their popups, the bottom layer, the background.
pub proof fn nothing_is_drawn_out_of_order(
    cursor: Option<CursorSprite>,
    watermark: bool,
    surfaces: Seq<LayerSurface>,
    windows: Seq<SceneWindow>,
    i: int,
    j: int,
)
    requires
        0 <= i < j < drawn(cursor, watermark, surfaces, windows).len(),
    ensures
        depth(drawn(cursor, watermark, surfaces, windows)[i]) <= depth(
            drawn(cursor, watermark, surfaces, windows)[j],
        ),
{
    let n = surfaces.len() as int;
    let front = front_elements(cursor, watermark);
    let overlay = layer_elements(surfaces, Layer::Overlay, n);
    let top = layer_elements(surfaces, Layer::Top, n);
    let middle = windows_elements(windows, windows.len() as int);
    let bottom = layer_elements(surfaces, Layer::Bottom, n);
    let back = layer_elements(surfaces, Layer::Background, n);
    layers_at(surfaces, Layer::Overlay, n);
    layers_at(surfaces, Layer::Top, n);
    windows_at(windows, windows.len() as int);
    layers_at(surfaces, Layer::Bottom, n);
    layers_at(surfaces, Layer::Background, n);
    sorted_join(front, overlay, 1, 2);
    sorted_join(front + overlay, top, 2, 3);
    sorted_join(front + overlay + top, middle, 3, 4);
    sorted_join(front + overlay + top + middle, bottom, 4, 5);
    sorted_join(front + overlay + top + middle + bottom, back, 5, 6);
}

/// Elements come from the front to the back, none further back than this.
spec fn sorted_to(s: Seq<Element>, d: int) -> bool {
    &&& forall|i: int| 0 <= i < s.len() ==> depth(#[trigger] s[i]) <= d
    &&& forall|i: int, j: int|
        0 <= i < j < s.len() ==> depth(#[trigger] s[i]) <= depth(#[trigger] s[j])
}

proof fn sorted_join(a: Seq<Element>, b: Seq<Element>, d: int, e: int)
    requires
        sorted_to(a, d),
        all_at(b, e),
        d <= e,
    ensures
        sorted_to(a + b, e),
{
    let s = a + b;
    assert forall|i: int| 0 <= i < s.len() implies depth(#[trigger] s[i]) <= e by {
        if i >= a.len() {
            assert(s[i] == b[i - a.len()]);
        } else {
            assert(s[i] == a[i]);
        }
    }
    assert forall|i: int, j: int| 0 <= i < j < s.len() implies depth(#[trigger] s[i]) <= depth(
        #[trigger] s[j],
    ) by {
        if j >= a.len() {
            assert(s[j] == b[j - a.len()]);
        } else {
            assert(s[i] == a[i] && s[j] == a[j]);
        }
    }
}

} // verus!
