use pixelflux::uinput::{
    input_event, io, iow, uinput_abs_setup, uinput_setup, Device, Pair, Request, ABS_RANGE, ABS_X,
    EV_KEY, EV_SYN, SYN_REPORT, UI_ABS_SETUP, UI_DEV_CREATE, UI_DEV_DESTROY, UI_DEV_SETUP,
    UI_SET_ABSBIT, UI_SET_EVBIT, UI_SET_KEYBIT, UI_SET_RELBIT,
};

#[test]
fn ioctls_and_structs_match_the_kernel_abi() {
    assert_eq!(UI_DEV_CREATE, 0x5501);
    assert_eq!(UI_DEV_DESTROY, 0x5502);
    assert_eq!(UI_SET_EVBIT, 0x4004_5564);
    assert_eq!(UI_SET_KEYBIT, 0x4004_5565);
    assert_eq!(UI_SET_RELBIT, 0x4004_5566);
    assert_eq!(UI_SET_ABSBIT, 0x4004_5567);
    let setup = uinput_setup(b"Name", 7);
    let abs = uinput_abs_setup(ABS_X);
    let event = input_event(EV_KEY, 30, 1);
    assert_eq!(setup.len(), 92);
    assert_eq!(abs.len(), 28);
    assert_eq!(event.len(), 24);
    // The axis range starts at byte 4: value, minimum, maximum.
    assert_eq!(&abs[4..12], &[0u8; 8]);
    assert_eq!(i32::from_le_bytes(abs[12..16].try_into().unwrap()), ABS_RANGE);
    // The name starts at byte 8 and ends at byte 88, where the effect count stands.
    assert_eq!(&setup[8..13], b"Name\0");
    assert_eq!(&setup[88..92], &[0u8; 4]);
    assert_eq!(UI_DEV_SETUP, 0x405c_5503);
    assert_eq!(UI_ABS_SETUP, 0x401c_5504);
}

/// An event goes out with the report that closes it.
#[test]
fn events_are_closed_by_a_report() {
    let raw = Device::keyboard().emit(EV_KEY, 30, 1);
    assert_eq!(raw.len(), 48);
    let mut events: Vec<(u16, u16, i32)> = Vec::new();
    for c in raw.chunks(24) {
        events.push((
            u16::from_le_bytes([c[16], c[17]]),
            u16::from_le_bytes([c[18], c[19]]),
            i32::from_le_bytes([c[20], c[21], c[22], c[23]]),
        ));
    }
    assert_eq!(events, vec![(EV_KEY, 30, 1), (EV_SYN, SYN_REPORT, 0)]);
}

#[test]
fn requests_carry_number_and_size() {
    assert_eq!(io(1), UI_DEV_CREATE);
    assert_eq!(iow(3, 92), UI_DEV_SETUP);
    assert_eq!(iow(100, 4), UI_SET_EVBIT);
}

/// A long name is cut so that it stays ended by a zero.
#[test]
fn long_names_are_cut() {
    let setup = uinput_setup(&[b'x'; 200], 1);
    assert_eq!(setup.len(), 92);
    assert_eq!(setup[8 + 78], b'x');
    assert_eq!(setup[8 + 79], 0);
}

#[test]
fn devices_end_with_their_creation() {
    for d in [Device::keyboard(), Device::pointer()] {
        assert!(matches!(d.requests.last(), Some(Request::Plain { request }) if *request == UI_DEV_CREATE));
        assert!(d.requests.iter().any(|r| matches!(r, Request::Data { request, bytes } if *request == UI_DEV_SETUP && bytes.len() == 92)));
    }
}

/// Both devices or none: what failed is told.
#[test]
fn pairs_need_both_devices() {
    let (none, told) = Pair::open(None);
    assert!(none.is_none() && told.is_empty());
    let (both, told) = Pair::open(Some((Ok(Device::keyboard()), Ok(Device::pointer()))));
    assert!(both.is_some() && told.is_empty());
    let (half, told) = Pair::open(Some((Err("no node".to_string()), Ok(Device::pointer()))));
    assert!(half.is_none());
    assert_eq!(told.len(), 1);
    assert!(told[0].contains("no node"));
}
