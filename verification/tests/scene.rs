use pixelflux::input::{Layer, LayerSurface};
use pixelflux::pool::Rect;
use pixelflux::scene::{
    cursor_on_register, cursor_on_start, cursor_sprite, pointer_local, scene, CursorIcon, CursorSprite,
    Element, SceneWindow, ToldCursor,
};

fn surface(id: u32, layer: Layer) -> LayerSurface {
    LayerSurface { id, layer, bbox: Rect { x: 0, y: 0, w: 10, h: 10 } }
}

/// Everything is drawn from the front to the back, the topmost of each kind first.
#[test]
fn scenes_are_drawn_front_first() {
    let surfaces = vec![
        surface(1, Layer::Background),
        surface(2, Layer::Top),
        surface(3, Layer::Overlay),
        surface(4, Layer::Bottom),
        surface(5, Layer::Top),
    ];
    let windows = vec![SceneWindow { id: 10, popups: 0 }, SceneWindow { id: 11, popups: 2 }];
    assert_eq!(
        scene(Some(CursorSprite::Default), true, &surfaces, &windows),
        vec![
            Element::Cursor(CursorSprite::Default),
            Element::Watermark,
            Element::Layer { id: 3, layer: Layer::Overlay },
            Element::Layer { id: 5, layer: Layer::Top },
            Element::Layer { id: 2, layer: Layer::Top },
            Element::Popup { window: 11, nth: 0 },
            Element::Popup { window: 11, nth: 1 },
            Element::Window(11),
            Element::Window(10),
            Element::Layer { id: 4, layer: Layer::Bottom },
            Element::Layer { id: 1, layer: Layer::Background },
        ]
    );
    assert!(scene(None, false, &vec![], &vec![]).is_empty());
}

/// The cursor is drawn only on the output that the pointer is on.
#[test]
fn cursors_are_drawn_under_the_pointer() {
    assert_eq!(pointer_local((100, 0), (50, 50), 149_999, 0), Some((49_999, 0)));
    assert_eq!(pointer_local((100, 0), (50, 50), 150_000, 0), None);
    assert_eq!(pointer_local((100, 0), (50, 50), 99_999, 0), None);
    assert_eq!(cursor_sprite(true, true, None), Some(CursorSprite::Default));
    assert_eq!(cursor_sprite(true, true, Some(CursorIcon::Surface)), Some(CursorSprite::Surface));
    assert_eq!(cursor_sprite(true, true, Some(CursorIcon::Hidden)), None);
    assert_eq!(cursor_sprite(true, false, None), None);
    assert_eq!(cursor_sprite(false, true, None), None);
}

#[test]
fn consumers_are_told_the_cursor() {
    assert_eq!(cursor_on_register(None), ToldCursor::Default);
    assert_eq!(cursor_on_register(Some(CursorIcon::Hidden)), ToldCursor::Client(CursorIcon::Hidden));
    assert_eq!(cursor_on_start(0, true, Some(CursorIcon::Named)), Some(CursorIcon::Named));
    assert_eq!(cursor_on_start(1, true, Some(CursorIcon::Named)), None);
    assert_eq!(cursor_on_start(0, false, Some(CursorIcon::Named)), None);
}
