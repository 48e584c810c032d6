use pixelflux::input::{
    key_presses, pointer_focus, scroll_frame, taker, window_to_focus, Focus, KeyPress, Layer,
    LayerSurface, Scroll, Taker,
};
use pixelflux::pool::Rect;

fn surface(id: u32, layer: Layer, x: i32, w: i32) -> LayerSurface {
    LayerSurface { id, layer, bbox: Rect { x, y: 0, w, h: 10 } }
}

#[test]
fn any_state_but_zero_is_a_press() {
    assert_eq!(
        key_presses(&vec![(30, 1), (30, 0), (48, 2)]),
        vec![
            KeyPress { scancode: 30, pressed: true },
            KeyPress { scancode: 30, pressed: false },
            KeyPress { scancode: 48, pressed: true },
        ]
    );
    assert_eq!(taker(true), Taker::Host);
    assert_eq!(taker(false), Taker::Seat);
}

/// A bar in front covers a window, a wallpaper behind does not, and edges are outside.
#[test]
fn pointers_find_what_lies_on_top() {
    let window = Some(Focus::Window { id: 9, x: 100, y: 0 });
    let surfaces = vec![
        surface(1, Layer::Background, 0, 100),
        surface(2, Layer::Top, 0, 20),
        surface(3, Layer::Overlay, 10, 5),
    ];
    let at = |w, x| pointer_focus(&surfaces, w, (100, 7), x, 5);
    assert_eq!(at(window, 12), Some(Focus::Layer { id: 3, x: 110, y: 7 }));
    assert_eq!(at(window, 15), Some(Focus::Layer { id: 2, x: 100, y: 7 }));
    assert_eq!(at(window, 20), window);
    assert_eq!(at(None, 20), Some(Focus::Layer { id: 1, x: 100, y: 7 }));
    assert_eq!(at(None, 100), None);
}

/// A press focuses the window under the pointer, unless a host takes the input.
#[test]
fn presses_focus_the_window_under_the_pointer() {
    assert_eq!(window_to_focus(1, false, Some(7)), Some(7));
    assert_eq!(window_to_focus(1, false, None), None);
    assert_eq!(window_to_focus(0, false, Some(7)), None);
    assert_eq!(window_to_focus(1, true, Some(7)), None);
}

/// Ten units of a scroll are a notch; fractions of a step are cut off towards zero.
#[test]
fn scrolls_come_in_wheel_steps() {
    assert_eq!(
        scroll_frame(10_000, -1_999),
        (Some(Scroll { value_milli: 10_000, steps: 120 }), Some(Scroll { value_milli: -1_999, steps: -23 }))
    );
    assert_eq!(scroll_frame(0, 0), (None, None));
    assert_eq!(scroll_frame(i64::MIN, 0).0.unwrap().steps, i32::MIN);
}
