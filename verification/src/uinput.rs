//! Kernel input devices for host-capture injection, over `/dev/uinput`.
//!
//! A host session takes its input from the kernel, so a uinput keyboard and pointer reach it
//! whatever display server it runs: no compositor protocol to advertise, no portal on the bus,
//! and no consent dialog to answer. That makes it the first rung of the host-capture input
//! ladder, and it is taken only where `/dev/uinput` is writable.
//!
//! The pointer carries a normalized absolute axis rather than the layout's own pixels: a uinput
//! device fixes its axis range when the kernel creates it, while the layout changes whenever a
//! display is added or resized.
//!
//! The requests and structures are the kernel's own, byte for byte, on a little-endian machine.

use vstd::prelude::*;
use vstd::slice::slice_subrange;
use vstd::string::*;
use crate::bytes;
use crate::bytes::{push_all, push_le16, push_le32, push_zeros};

verus! {

/// The direction field of a request that carries an argument to the kernel.
pub const IOC_WRITE: u64 = 1;

/// The room for a device's name, its closing zero counted.
pub const UINPUT_NAME_LEN: usize = 80;

pub const UI_DEV_CREATE: u64 = 0x5501;

pub const UI_DEV_DESTROY: u64 = 0x5502;

pub const UI_DEV_SETUP: u64 = 0x405c_5503;

pub const UI_ABS_SETUP: u64 = 0x401c_5504;

pub const UI_SET_EVBIT: u64 = 0x4004_5564;

pub const UI_SET_KEYBIT: u64 = 0x4004_5565;

pub const UI_SET_RELBIT: u64 = 0x4004_5566;

pub const UI_SET_ABSBIT: u64 = 0x4004_5567;

pub const EV_SYN: u16 = 0x00;

pub const EV_KEY: u16 = 0x01;

pub const EV_REL: u16 = 0x02;

pub const EV_ABS: u16 = 0x03;

pub const SYN_REPORT: u16 = 0;

pub const BTN_MISC: u16 = 0x100;

pub const BTN_LEFT: u16 = 0x110;

pub const BTN_RIGHT: u16 = 0x111;

pub const BTN_MIDDLE: u16 = 0x112;

pub const REL_X: u16 = 0x00;

pub const REL_Y: u16 = 0x01;

pub const REL_HWHEEL: u16 = 0x06;

pub const REL_WHEEL: u16 = 0x08;

pub const ABS_X: u16 = 0x00;

pub const ABS_Y: u16 = 0x01;

pub const BUS_VIRTUAL: u16 = 0x06;

/// The vendor the devices declare.
pub const VENDOR: u16 = 0x1d6b;

/// The span an absolute axis is declared over; positions are scaled onto it.
pub const ABS_RANGE: i32 = 65535;

/// The fields of a request number: direction, argument size, the letter U, the number.
pub open spec fn request_fields(direction: int, size: int, nr: int) -> int {
    direction * 0x4000_0000 + size * 0x1_0000 + 0x55 * 0x100 + nr
}

/// The request number of a uinput request that carries an argument of `size` bytes.
pub fn iow(nr: u64, size: u64) -> (r: u64)
    ensures
        r == (IOC_WRITE << 30) | (size << 16) | (0x55u64 << 8) | nr,
        nr < 0x100 && size < 0x4000 ==> r == request_fields(IOC_WRITE as int, size as int, nr as int),
{
    assert(nr < 0x100 && size < 0x4000 ==> (1u64 << 30) | (size << 16) | (0x55u64 << 8) | nr
        == 0x4000_0000 + size * 0x1_0000 + 0x5500 + nr) by (bit_vector);
    (IOC_WRITE << 30) | (size << 16) | (0x55u64 << 8) | nr
}

/// The request number of a uinput request that carries no argument.
pub fn io(nr: u64) -> (r: u64)
    ensures
        r == (0x55u64 << 8) | nr,
        nr < 0x100 ==> r == request_fields(0, 0, nr as int),
{
    assert(nr < 0x100 ==> (0x55u64 << 8) | nr == 0x5500 + nr) by (bit_vector);
    (0x55u64 << 8) | nr
}

/// The request numbers are those the kernel derives from a request's number and the length of
/// the structure it takes.
pub proof fn requests_encode_their_arguments(name: Seq<u8>, product: u16, code: u16)
    ensures
        UI_DEV_CREATE == request_fields(0, 0, 1),
        UI_DEV_DESTROY == request_fields(0, 0, 2),
        UI_DEV_SETUP == request_fields(1, setup_bytes(name, product).len() as int, 3),
        UI_ABS_SETUP == request_fields(1, abs_setup_bytes(code).len() as int, 4),
        UI_SET_EVBIT == request_fields(1, 4, 100),
        UI_SET_KEYBIT == request_fields(1, 4, 101),
        UI_SET_RELBIT == request_fields(1, 4, 102),
        UI_SET_ABSBIT == request_fields(1, 4, 103),
{
}

/// The bytes of a name that fit ahead of the closing zero.
pub open spec fn kept_name(name: Seq<u8>) -> Seq<u8> {
    if name.len() < UINPUT_NAME_LEN {
        name
    } else {
        name.take(UINPUT_NAME_LEN - 1)
    }
}

/// A device's identity and name: bus, vendor, product, version, the name padded with zeros, and
/// no force-feedback effects.
pub open spec fn setup_bytes(name: Seq<u8>, product: u16) -> Seq<u8> {
    bytes::le16(BUS_VIRTUAL) + bytes::le16(VENDOR) + bytes::le16(product) + bytes::le16(1)
        + kept_name(name) + bytes::zeros((UINPUT_NAME_LEN - kept_name(name).len()) as nat)
        + bytes::le32(0)
}

/// A device's identity and name, as the kernel takes them.
pub fn uinput_setup(name: &[u8], product: u16) -> (out: Vec<u8>)
    ensures
        out@ == setup_bytes(name@, product),
        out@.len() == 92,
{
    let mut out: Vec<u8> = Vec::new();
    push_le16(&mut out, BUS_VIRTUAL);
    push_le16(&mut out, VENDOR);
    push_le16(&mut out, product);
    push_le16(&mut out, 1);
    let n: usize = if name.len() < UINPUT_NAME_LEN {
        name.len()
    } else {
        UINPUT_NAME_LEN - 1
    };
    let kept = slice_subrange(name, 0, n);
    assert(kept@ =~= kept_name(name@));
    push_all(&mut out, kept);
    push_zeros(&mut out, UINPUT_NAME_LEN - n);
    push_le32(&mut out, 0);
    assert(out@ =~= setup_bytes(name@, product));
    out
}

/// An absolute axis: its code, two bytes of padding, the value, the least, the greatest, fuzz,
/// flat and resolution.
pub open spec fn abs_setup_bytes(code: u16) -> Seq<u8> {
    bytes::le16(code) + bytes::le16(0) + bytes::le32(0) + bytes::le32(0) + bytes::le32(
        ABS_RANGE as u32,
    ) + bytes::le32(0) + bytes::le32(0) + bytes::le32(0)
}

/// An absolute axis over the whole range, as the kernel takes it.
pub fn uinput_abs_setup(code: u16) -> (out: Vec<u8>)
    ensures
        out@ == abs_setup_bytes(code),
        out@.len() == 28,
{
    let mut out: Vec<u8> = Vec::new();
    push_le16(&mut out, code);
    push_le16(&mut out, 0);
    push_le32(&mut out, 0);
    push_le32(&mut out, 0);
    push_le32(&mut out, ABS_RANGE as u32);
    push_le32(&mut out, 0);
    push_le32(&mut out, 0);
    push_le32(&mut out, 0);
    assert(out@ =~= abs_setup_bytes(code));
    out
}

/// The bits of a signed value.
pub open spec fn bits(v: i32) -> u32 {
    (v as int % 0x1_0000_0000) as u32
}

/// An event without a time: the kernel stamps it.
pub open spec fn event_bytes(kind: u16, code: u16, value: i32) -> Seq<u8> {
    bytes::zeros(16) + bytes::le16(kind) + bytes::le16(code) + bytes::le32(bits(value))
}

/// An event as the kernel reads it.
pub fn input_event(kind: u16, code: u16, value: i32) -> (out: Vec<u8>)
    ensures
        out@ == event_bytes(kind, code, value),
        out@.len() == 24,
{
    let mut out: Vec<u8> = Vec::new();
    push_zeros(&mut out, 16);
    push_le16(&mut out, kind);
    push_le16(&mut out, code);
    push_le32(&mut out, ((value as i64 + 0x1_0000_0000) % 0x1_0000_0000) as u32);
    assert(out@ =~= event_bytes(kind, code, value));
    out
}

/// One request to the kernel on a device's descriptor.
#[derive(Debug)]
pub enum Request {
    /// A request with a number for its argument.
    Value { request: u64, value: u64 },
    /// A request with a structure for its argument.
    Data { request: u64, bytes: Vec<u8> },
    /// A request without an argument.
    Plain { request: u64 },
}

/// A request as numbers and bytes.
pub enum RequestView {
    Value { request: u64, value: u64 },
    Data { request: u64, bytes: Seq<u8> },
    Plain { request: u64 },
}

impl View for Request {
    type V = RequestView;

    open spec fn view(&self) -> RequestView {
        match self {
            Request::Value { request, value } => RequestView::Value {
                request: *request,
                value: *value,
            },
            Request::Data { request, bytes } => RequestView::Data {
                request: *request,
                bytes: bytes@,
            },
            Request::Plain { request } => RequestView::Plain { request: *request },
        }
    }
}

/// The views of a list of requests.
pub open spec fn views(requests: Seq<Request>) -> Seq<RequestView> {
    requests.map(|_i: int, r: Request| r@)
}

/// The requests that set a bit each.
pub open spec fn sets(request: u64, codes: Seq<u16>) -> Seq<RequestView> {
    codes.map(|_i: int, c: u16| RequestView::Value { request, value: c as u64 })
}

/// Creating a device: its bits, then its identity and name, then the device itself.
pub open spec fn creation(name: Seq<u8>, product: u16, build: Seq<RequestView>) -> Seq<
    RequestView,
> {
    sets(UI_SET_EVBIT, seq![EV_SYN]) + build + seq![
        RequestView::Data { request: UI_DEV_SETUP, bytes: setup_bytes(name, product) },
        RequestView::Plain { request: UI_DEV_CREATE },
    ]
}

/// What a keyboard carries: every key code below the buttons.
pub open spec fn keyboard_bits() -> Seq<RequestView> {
    sets(UI_SET_EVBIT, seq![EV_KEY]) + sets(
        UI_SET_KEYBIT,
        Seq::new((BTN_MISC - 1) as nat, |i: int| (i + 1) as u16),
    )
}

/// What declares one absolute axis.
pub open spec fn axis(code: u16) -> Seq<RequestView> {
    sets(UI_SET_ABSBIT, seq![code]) + seq![
        RequestView::Data { request: UI_ABS_SETUP, bytes: abs_setup_bytes(code) },
    ]
}

/// What a pointer carries: both motion kinds, three buttons, two wheels, two axes.
pub open spec fn pointer_bits() -> Seq<RequestView> {
    sets(UI_SET_EVBIT, seq![EV_KEY, EV_REL, EV_ABS]) + sets(
        UI_SET_KEYBIT,
        seq![BTN_LEFT, BTN_RIGHT, BTN_MIDDLE],
    ) + sets(UI_SET_RELBIT, seq![REL_X, REL_Y, REL_WHEEL, REL_HWHEEL]) + axis(ABS_X) + axis(ABS_Y)
}

/// The name of the keyboard.
pub const KEYBOARD_NAME: &'static str = "Selkies Virtual Keyboard";

/// The name of the pointer.
pub const POINTER_NAME: &'static str = "Selkies Virtual Pointer";

fn push_set(out: &mut Vec<Request>, request: u64, code: u16)
    ensures
        views(final(out)@) == views(old(out)@) + sets(request, seq![code]),
{
    out.push(Request::Value { request, value: code as u64 });
    assert(views(out@) =~= views(old(out)@) + sets(request, seq![code]));
}

fn push_data(out: &mut Vec<Request>, request: u64, bytes: Vec<u8>)
    ensures
        views(final(out)@) == views(old(out)@) + seq![
            RequestView::Data { request, bytes: bytes@ },
        ],
{
    let ghost content = bytes@;
    out.push(Request::Data { request, bytes });
    assert(views(out@) =~= views(old(out)@) + seq![RequestView::Data { request, bytes: content }]);
}

/// One kernel device, described by the requests that create it.
#[derive(Debug)]
pub struct Device {
    pub requests: Vec<Request>,
}

impl Device {
    fn close(out: &mut Vec<Request>, name: &str, product: u16)
        ensures
            views(final(out)@) == views(old(out)@) + seq![
                RequestView::Data {
                    request: UI_DEV_SETUP,
                    bytes: setup_bytes(name.spec_bytes(), product),
                },
                RequestView::Plain { request: UI_DEV_CREATE },
            ],
    {
        push_data(out, UI_DEV_SETUP, uinput_setup(name.as_bytes(), product));
        let ghost before = views(out@);
        out.push(Request::Plain { request: UI_DEV_CREATE });
        assert(views(out@) =~= before + seq![RequestView::Plain { request: UI_DEV_CREATE }]);
        assert(views(out@) =~= views(old(out)@) + seq![
            RequestView::Data {
                request: UI_DEV_SETUP,
                bytes: setup_bytes(name.spec_bytes(), product),
            },
            RequestView::Plain { request: UI_DEV_CREATE },
        ]);
    }

    /// A keyboard carrying every key code; the button codes above them are left out, or the
    /// device reads as a pad rather than a keyboard.
    pub fn keyboard() -> (d: Device)
        ensures
            views(d.requests@) == creation(KEYBOARD_NAME.spec_bytes(), 0x0001, keyboard_bits()),
    {
        let mut out: Vec<Request> = Vec::new();
        push_set(&mut out, UI_SET_EVBIT, EV_SYN);
        push_set(&mut out, UI_SET_EVBIT, EV_KEY);
        let ghost opened = sets(UI_SET_EVBIT, seq![EV_SYN]) + sets(UI_SET_EVBIT, seq![EV_KEY]);
        assert(views(out@) =~= opened);
        let mut code: u16 = 1;
        while code < BTN_MISC
            invariant
                1 <= code <= BTN_MISC,
                views(out@) == opened + sets(
                    UI_SET_KEYBIT,
                    Seq::new((code - 1) as nat, |i: int| (i + 1) as u16),
                ),
            decreases BTN_MISC - code,
        {
            push_set(&mut out, UI_SET_KEYBIT, code);
            code += 1;
            assert(views(out@) =~= opened + sets(
                UI_SET_KEYBIT,
                Seq::new((code - 1) as nat, |i: int| (i + 1) as u16),
            ));
        }
        Device::close(&mut out, KEYBOARD_NAME, 0x0001);
        assert(views(out@) =~= creation(KEYBOARD_NAME.spec_bytes(), 0x0001, keyboard_bits()));
        Device { requests: out }
    }

    /// A pointer with both motion kinds: absolute for a placed position, relative for a locked
    /// pointer whose delta must stay a delta.
    pub fn pointer() -> (d: Device)
        ensures
            views(d.requests@) == creation(POINTER_NAME.spec_bytes(), 0x0002, pointer_bits()),
    {
        let mut out: Vec<Request> = Vec::new();
        push_set(&mut out, UI_SET_EVBIT, EV_SYN);
        push_set(&mut out, UI_SET_EVBIT, EV_KEY);
        push_set(&mut out, UI_SET_EVBIT, EV_REL);
        push_set(&mut out, UI_SET_EVBIT, EV_ABS);
        push_set(&mut out, UI_SET_KEYBIT, BTN_LEFT);
        push_set(&mut out, UI_SET_KEYBIT, BTN_RIGHT);
        push_set(&mut out, UI_SET_KEYBIT, BTN_MIDDLE);
        push_set(&mut out, UI_SET_RELBIT, REL_X);
        push_set(&mut out, UI_SET_RELBIT, REL_Y);
        push_set(&mut out, UI_SET_RELBIT, REL_WHEEL);
        push_set(&mut out, UI_SET_RELBIT, REL_HWHEEL);
        push_set(&mut out, UI_SET_ABSBIT, ABS_X);
        push_data(&mut out, UI_ABS_SETUP, uinput_abs_setup(ABS_X));
        push_set(&mut out, UI_SET_ABSBIT, ABS_Y);
        push_data(&mut out, UI_ABS_SETUP, uinput_abs_setup(ABS_Y));
        assert(views(out@) =~= sets(UI_SET_EVBIT, seq![EV_SYN]) + pointer_bits());
        Device::close(&mut out, POINTER_NAME, 0x0002);
        assert(views(out@) =~= creation(POINTER_NAME.spec_bytes(), 0x0002, pointer_bits()));
        Device { requests: out }
    }

    /// The bytes of one event and of the report mark that closes its report.
    pub fn emit(&self, kind: u16, code: u16, value: i32) -> (out: Vec<u8>)
        ensures
            out@ == event_bytes(kind, code, value) + event_bytes(EV_SYN, SYN_REPORT, 0),
    {
        let mut out: Vec<u8> = input_event(kind, code, value);
        let mark = input_event(EV_SYN, SYN_REPORT, 0);
        push_all(&mut out, mark.as_slice());
        out
    }
}

/// The keyboard and pointer one host session injects through.
#[derive(Debug)]
pub struct Pair {
    pub keyboard: Device,
    pub pointer: Device,
}

impl Pair {
    /// Both devices, or none with the errors to tell where the kernel cannot serve them, which is
    /// what sends injection down to the lower rungs. `made` is what creating the two came to, and
    /// `None` where `/dev/uinput` is not writable.
    pub fn open(made: Option<(Result<Device, String>, Result<Device, String>)>) -> (r: (
        Option<Pair>,
        Vec<String>,
    ))
        ensures
            match made {
                Some((Ok(keyboard), Ok(pointer))) => {
                    &&& r.0 == Some(Pair { keyboard, pointer })
                    &&& r.1@.len() == 0
                },
                Some((Err(k), Err(p))) => r.0 is None && r.1@ == seq![k, p],
                Some((Err(k), Ok(_))) => r.0 is None && r.1@ == seq![k],
                Some((Ok(_), Err(p))) => r.0 is None && r.1@ == seq![p],
                None => r.0 is None && r.1@.len() == 0,
            },
    {
        let mut errors: Vec<String> = Vec::new();
        match made {
            Some((Ok(keyboard), Ok(pointer))) => (Some(Pair { keyboard, pointer }), errors),
            Some((keyboard, pointer)) => {
                if let Err(e) = keyboard {
                    errors.push(e);
                }
                if let Err(e) = pointer {
                    errors.push(e);
                }
                (None, errors)
            },
            None => (None, errors),
        }
    }
}

} // verus!
