use pixelflux::pixels::{
    copy_prefix, copy_rows_into_shm, swap_red_blue, unpremultiply_rgba, ShmError, ShmSpec,
};

#[test]
fn alpha_is_divided_out_to_the_nearest() {
    let mut px = vec![10, 20, 30, 0, 64, 32, 0, 128, 1, 2, 3, 255, 200, 0, 0, 100];
    unpremultiply_rgba(&mut px);
    assert_eq!(&px[..4], &[0, 0, 0, 0]);
    assert_eq!(&px[4..8], &[128, 64, 0, 128]);
    assert_eq!(&px[8..12], &[1, 2, 3, 255]);
    assert_eq!(&px[12..16], &[255, 0, 0, 100], "a colour above its alpha is cut off");
}

#[test]
fn swapping_the_colours_twice_is_nothing() {
    let mut px = vec![1, 2, 3, 4, 5, 6, 7, 8];
    swap_red_blue(&mut px);
    assert_eq!(px, vec![3, 2, 1, 4, 7, 6, 5, 8]);
    swap_red_blue(&mut px);
    assert_eq!(px, vec![1, 2, 3, 4, 5, 6, 7, 8]);
}

#[test]
fn rows_are_copied_at_the_clients_stride() {
    let src: Vec<u8> = (1..=16).collect();
    let mut dst = vec![0u8; 32];
    let spec = ShmSpec { width: 2, height: 2, stride: 12, offset: 4 };
    assert!(copy_rows_into_shm(&mut dst, spec, &src, 2, 2).is_ok());
    assert_eq!(&dst[4..12], &[1, 2, 3, 4, 5, 6, 7, 8]);
    assert_eq!(&dst[16..24], &[9, 10, 11, 12, 13, 14, 15, 16]);
    assert_eq!((dst[0], dst[12], dst[24]), (0, 0, 0));
}

#[test]
fn buffers_that_do_not_fit_are_refused() {
    let src = vec![1u8; 16];
    let spec = ShmSpec { width: 2, height: 2, stride: 8, offset: 0 };
    let mut dst = vec![0u8; 16];
    assert!(matches!(copy_rows_into_shm(&mut dst, spec, &src[..8], 2, 2), Err(ShmError::Source)));
    let mut small = vec![0u8; 15];
    assert!(copy_rows_into_shm(&mut small, spec, &src, 2, 2).is_err());
    let narrow = ShmSpec { width: 2, height: 2, stride: 4, offset: 0 };
    assert!(copy_rows_into_shm(&mut dst, narrow, &src, 2, 2).is_err());
    assert!(dst.iter().all(|b| *b == 0));
}

#[test]
fn prefixes_fill_what_there_is_room_for() {
    let mut dst = vec![0u8; 3];
    copy_prefix(&mut dst, &[1, 2, 3, 4]);
    assert_eq!(dst, vec![1, 2, 3]);
    copy_prefix(&mut dst, &[9]);
    assert_eq!(dst, vec![9, 2, 3]);
}
