use pixelflux::csc::{convert, hw_plane_buffer};

fn rows(pixel: [u8; 4], n: usize) -> Vec<u8> {
    pixel.iter().copied().cycle().take(n * 4).collect()
}

fn near(a: u8, b: u8) -> bool {
    (a as i32 - b as i32).abs() <= 3
}

/// White and red come out as their BT.709 limited-range values, in both chroma layouts.
#[test]
fn colours_are_converted() {
    let (w, h) = (4, 2);
    let mut full = hw_plane_buffer(w, h, true, true);
    assert_eq!(full.len(), 24);
    assert!(convert(&mut full, &rows([255, 255, 255, 255], 8), w, h, true, true));
    assert!(full[..8].iter().all(|y| near(*y, 235)));
    assert!(full[8..].iter().all(|c| near(*c, 128)));
    assert!(convert(&mut full, &rows([255, 0, 0, 255], 8), w, h, true, true));
    assert!(near(full[0], 63) && near(full[8], 102) && near(full[16], 240));

    let mut half = hw_plane_buffer(w, h, false, true);
    assert_eq!(half.len(), 12);
    assert!(convert(&mut half, &rows([255, 0, 0, 255], 8), w, h, false, true));
    assert!(near(half[0], 63));
    assert!(near(half[8], 102) && near(half[9], 240));
}

/// The same bytes in the other order are another colour.
#[test]
fn colour_orders_are_told_apart() {
    let (w, h) = (4, 2);
    for fullcolor in [true, false] {
        let mut rgba = hw_plane_buffer(w, h, fullcolor, true);
        let mut bgra = hw_plane_buffer(w, h, fullcolor, true);
        assert!(convert(&mut rgba, &rows([255, 0, 0, 255], 8), w, h, fullcolor, true));
        assert!(convert(&mut bgra, &rows([255, 0, 0, 255], 8), w, h, fullcolor, false));
        assert!(near(rgba[0], 63));
        assert!(near(bgra[0], 32), "blue");
        let u = bgra[8];
        assert!(near(u, 240), "blue is far on the first chroma axis: {u}");
    }
}

/// What cannot be converted leaves the planes as they were.
#[test]
fn frames_cut_short_leave_the_planes() {
    let mut planes = vec![7u8; 12];
    assert!(!convert(&mut planes, &rows([255, 0, 0, 255], 7), 4, 2, false, true));
    assert!(planes.iter().all(|b| *b == 7));
    let mut odd = vec![7u8; 3 * 3 * 3 / 2];
    assert!(!convert(&mut odd, &rows([1, 2, 3, 4], 9), 3, 3, false, false));
    assert!(odd.iter().all(|b| *b == 7));
    let mut full = vec![7u8; 27];
    assert!(convert(&mut full, &rows([1, 2, 3, 4], 9), 3, 3, true, false));
    assert!(hw_plane_buffer(1920, 1080, true, false).is_empty());
}
