//! The SPA pod encoding shared by every PipeWire user: the webcam sink and the portal screen
//! capture.
//!
//! Pods are built and read by hand against the SPA wire layout: 8-byte aligned
//! `size, type, payload` cells, objects carrying `key, flags, cell` properties, and a choice cell
//! whose first value is the default (and, once fixated, the only) value. Integers stand in the
//! machine's byte order, which is little-endian on every supported target.

use vstd::prelude::*;
use vstd::slice::slice_subrange;
use crate::bytes;

verus! {

pub const SPA_TYPE_ID: u32 = 3;

pub const SPA_TYPE_INT: u32 = 4;

pub const SPA_TYPE_LONG: u32 = 5;

pub const SPA_TYPE_RECTANGLE: u32 = 10;

pub const SPA_TYPE_FRACTION: u32 = 11;

pub const SPA_TYPE_OBJECT: u32 = 15;

pub const SPA_TYPE_CHOICE: u32 = 19;

pub const SPA_TYPE_OBJECT_FORMAT: u32 = 0x40003;

pub const SPA_TYPE_OBJECT_PARAM_BUFFERS: u32 = 0x40004;

pub const SPA_TYPE_OBJECT_PARAM_META: u32 = 0x40005;

pub const SPA_PARAM_ENUM_FORMAT: u32 = 3;

pub const SPA_PARAM_FORMAT: u32 = 4;

pub const SPA_PARAM_BUFFERS: u32 = 5;

pub const SPA_PARAM_META: u32 = 6;

pub const SPA_FORMAT_MEDIA_TYPE: u32 = 1;

pub const SPA_FORMAT_MEDIA_SUBTYPE: u32 = 2;

pub const SPA_FORMAT_VIDEO_FORMAT: u32 = 0x20001;

pub const SPA_FORMAT_VIDEO_MODIFIER: u32 = 0x20002;

pub const SPA_FORMAT_VIDEO_SIZE: u32 = 0x20003;

pub const SPA_FORMAT_VIDEO_FRAMERATE: u32 = 0x20004;

pub const SPA_FORMAT_VIDEO_MAX_FRAMERATE: u32 = 0x20005;

pub const SPA_MEDIA_TYPE_VIDEO: u32 = 2;

pub const SPA_MEDIA_SUBTYPE_RAW: u32 = 1;

pub const SPA_MEDIA_SUBTYPE_MJPG: u32 = 0x20002;

pub const SPA_VIDEO_FORMAT_I420: u32 = 2;

pub const SPA_VIDEO_FORMAT_YUY2: u32 = 4;

pub const SPA_VIDEO_FORMAT_RGBX: u32 = 7;

pub const SPA_VIDEO_FORMAT_BGRX: u32 = 8;

pub const SPA_VIDEO_FORMAT_RGBA: u32 = 11;

pub const SPA_VIDEO_FORMAT_BGRA: u32 = 12;

pub const SPA_VIDEO_FORMAT_ARGB: u32 = 13;

pub const SPA_VIDEO_FORMAT_ABGR: u32 = 14;

pub const SPA_VIDEO_FORMAT_NV12: u32 = 23;

pub const SPA_PARAM_BUFFERS_BUFFERS: u32 = 1;

pub const SPA_PARAM_BUFFERS_BLOCKS: u32 = 2;

pub const SPA_PARAM_BUFFERS_SIZE: u32 = 3;

pub const SPA_PARAM_BUFFERS_STRIDE: u32 = 4;

pub const SPA_PARAM_BUFFERS_ALIGN: u32 = 5;

pub const SPA_PARAM_BUFFERS_DATATYPE: u32 = 6;

pub const SPA_PARAM_META_TYPE: u32 = 1;

pub const SPA_PARAM_META_SIZE: u32 = 2;

pub const SPA_META_HEADER: u32 = 1;

pub const SPA_META_VIDEO_CROP: u32 = 2;

pub const SPA_META_VIDEO_DAMAGE: u32 = 3;

pub const SPA_META_CURSOR: u32 = 5;

pub const SPA_META_HEADER_SIZE: u32 = 32;

pub const SPA_META_REGION_SIZE: u32 = 16;

pub const SPA_DATA_MEMPTR: u32 = 1;

pub const SPA_DATA_MEMFD: u32 = 2;

pub const SPA_DATA_DMABUF: u32 = 3;

pub const SPA_CHUNK_FLAG_CORRUPTED: i32 = 1;

pub const SPA_CHOICE_NONE: u32 = 0;

pub const SPA_CHOICE_RANGE: u32 = 1;

pub const SPA_CHOICE_ENUM: u32 = 3;

pub const SPA_CHOICE_FLAGS: u32 = 4;

pub const SPA_POD_PROP_FLAG_MANDATORY: u32 = 8;

pub const SPA_POD_PROP_FLAG_DONT_FIXATE: u32 = 16;

pub const PW_DIRECTION_INPUT: i32 = 0;

pub const PW_DIRECTION_OUTPUT: i32 = 1;

pub const PW_ID_ANY: u32 = 0xFFFF_FFFF;

pub const PW_STREAM_FLAG_AUTOCONNECT: u32 = 1;

pub const PW_STREAM_FLAG_MAP_BUFFERS: u32 = 4;

pub const PW_STREAM_FLAG_DRIVER: u32 = 8;

pub const PW_STREAM_STATE_ERROR: i32 = -1;

pub const PW_STREAM_STATE_UNCONNECTED: i32 = 0;

pub const PW_STREAM_STATE_PAUSED: i32 = 2;

pub const PW_STREAM_STATE_STREAMING: i32 = 3;

pub const PW_VERSION_STREAM_EVENTS: u32 = 2;

/// A cursor meta and the bitmap header behind it.
pub const CURSOR_META_HEADERS: u32 = 48;

/// Bytes a cursor meta needs to carry a `w`x`h` sprite: its own header, the bitmap's, and four
/// bytes a pixel.
pub fn cursor_meta_size(w: u32, h: u32) -> (n: u32)
    requires
        CURSOR_META_HEADERS + w * h * 4 <= u32::MAX,
    ensures
        n == 28 + 20 + w * h * 4,
{
    assert(0 <= w * h <= w * h * 4) by (nonlinear_arith)
        requires
            w >= 0,
            h >= 0,
    ;
    CURSOR_META_HEADERS + w * h * 4
}

/// The zero bytes that bring a length to a multiple of 8.
pub open spec fn padding(len: int) -> nat {
    ((8 - len % 8) % 8) as nat
}

/// A byte string brought to a multiple of 8 with zero bytes.
pub open spec fn padded(s: Seq<u8>) -> Seq<u8> {
    s + bytes::zeros(padding(s.len() as int))
}

/// A length brought to a multiple of 8.
pub open spec fn ceil8(n: int) -> int {
    (n + 7) / 8 * 8
}

/// A `size, type, payload` cell without its padding.
pub open spec fn bare_cell(ty: u32, payload: Seq<u8>) -> Seq<u8> {
    bytes::le32(payload.len() as u32) + bytes::le32(ty) + payload
}

/// One `size, type, payload` cell, padded to 8 bytes.
pub open spec fn cell(ty: u32, payload: Seq<u8>) -> Seq<u8> {
    padded(bare_cell(ty, payload))
}

/// A cell appended to a byte string, and the whole brought to a multiple of 8.
pub open spec fn with_cell(v: Seq<u8>, ty: u32, payload: Seq<u8>) -> Seq<u8> {
    padded(v + bare_cell(ty, payload))
}

/// Append a 32-bit value.
pub fn push_u32(v: &mut Vec<u8>, x: u32)
    ensures
        final(v)@ == old(v)@ + bytes::le32(x),
{
    bytes::push_le32(v, x);
}

fn pad8(v: &mut Vec<u8>)
    ensures
        final(v)@ == padded(old(v)@),
{
    let n: usize = (8 - v.len() % 8) % 8;
    bytes::push_zeros(v, n);
}

/// Append one `size, type, payload` cell, padded to 8 bytes.
pub fn pod_prim(v: &mut Vec<u8>, ty: u32, payload: &[u8])
    ensures
        final(v)@ == with_cell(old(v)@, ty, payload@),
{
    let ghost start = v@;
    push_u32(v, payload.len() as u32);
    push_u32(v, ty);
    bytes::push_all(v, payload);
    assert(v@ =~= start + bare_cell(ty, payload@));
    pad8(v);
}

/// Behind an aligned start, padding the whole pads the part.
proof fn padding_of_aligned(start: Seq<u8>, part: Seq<u8>)
    requires
        start.len() % 8 == 0,
    ensures
        padded(start + part) == start + padded(part),
{
    assert((start + part).len() % 8 == part.len() % 8);
    assert(padded(start + part) =~= start + padded(part));
}

proof fn padded_is_aligned(s: Seq<u8>)
    ensures
        padded(s).len() % 8 == 0,
{
    let n = s.len() as int;
    assert(padded(s).len() == n + (8 - n % 8) % 8);
    if n % 8 == 0 {
        assert((8 - n % 8) % 8 == 0);
    } else {
        assert((8 - n % 8) % 8 == 8 - n % 8);
        assert(n + (8 - n % 8) == (n / 8 + 1) * 8);
    }
}

/// Behind aligned bytes a cell is appended as it stands alone, and leaves the whole aligned.
pub proof fn cells_behind_aligned_bytes(v: Seq<u8>, ty: u32, payload: Seq<u8>)
    requires
        v.len() % 8 == 0,
    ensures
        with_cell(v, ty, payload) == v + cell(ty, payload),
        with_cell(v, ty, payload).len() % 8 == 0,
{
    let whole = v + bare_cell(ty, payload);
    assert(with_cell(v, ty, payload) == v + cell(ty, payload)) by {
        padding_of_aligned(v, bare_cell(ty, payload));
    }
    assert(padded(whole).len() % 8 == 0) by {
        padded_is_aligned(whole);
    }
}

/// Append an id cell.
pub fn pod_id(v: &mut Vec<u8>, x: u32)
    ensures
        final(v)@ == with_cell(old(v)@, SPA_TYPE_ID, bytes::le32(x)),
{
    let mut p: Vec<u8> = Vec::new();
    push_u32(&mut p, x);
    assert(p@ =~= bytes::le32(x));
    pod_prim(v, SPA_TYPE_ID, p.as_slice());
}

/// Append an integer cell.
pub fn pod_int(v: &mut Vec<u8>, x: i32)
    ensures
        final(v)@ == with_cell(old(v)@, SPA_TYPE_INT, bytes::le32(x as u32)),
{
    let mut p: Vec<u8> = Vec::new();
    push_u32(&mut p, x as u32);
    assert(p@ =~= bytes::le32(x as u32));
    pod_prim(v, SPA_TYPE_INT, p.as_slice());
}

/// Append a rectangle cell.
pub fn pod_rect(v: &mut Vec<u8>, w: u32, h: u32)
    ensures
        final(v)@ == with_cell(old(v)@, SPA_TYPE_RECTANGLE, bytes::le32(w) + bytes::le32(h)),
{
    let mut p: Vec<u8> = Vec::new();
    push_u32(&mut p, w);
    push_u32(&mut p, h);
    assert(p@ =~= bytes::le32(w) + bytes::le32(h));
    pod_prim(v, SPA_TYPE_RECTANGLE, p.as_slice());
}

/// Append a fraction cell.
pub fn pod_frac(v: &mut Vec<u8>, num: u32, den: u32)
    ensures
        final(v)@ == with_cell(old(v)@, SPA_TYPE_FRACTION, bytes::le32(num) + bytes::le32(den)),
{
    let mut p: Vec<u8> = Vec::new();
    push_u32(&mut p, num);
    push_u32(&mut p, den);
    assert(p@ =~= bytes::le32(num) + bytes::le32(den));
    pod_prim(v, SPA_TYPE_FRACTION, p.as_slice());
}

/// A choice's payload: its kind, flags, the size and type of a value, then the values.
pub open spec fn choice_payload(choice: u32, child_ty: u32, child_size: u32, values: Seq<u8>) -> Seq<
    u8,
> {
    bytes::le32(choice) + bytes::le32(0) + bytes::le32(child_size) + bytes::le32(child_ty) + values
}

/// Append a choice cell over fixed-size values of `child_ty`: `values` holds the default first,
/// then the alternatives (Enum), the bounds (Range), or the flag words (Flags), each `child_size`
/// bytes.
fn pod_choice(v: &mut Vec<u8>, choice: u32, child_ty: u32, child_size: u32, values: &[u8])
    ensures
        final(v)@ == with_cell(
            old(v)@,
            SPA_TYPE_CHOICE,
            choice_payload(choice, child_ty, child_size, values@),
        ),
{
    let mut body: Vec<u8> = Vec::new();
    push_u32(&mut body, choice);
    push_u32(&mut body, 0);
    push_u32(&mut body, child_size);
    push_u32(&mut body, child_ty);
    bytes::push_all(&mut body, values);
    assert(body@ =~= choice_payload(choice, child_ty, child_size, values@));
    pod_prim(v, SPA_TYPE_CHOICE, body.as_slice());
}

/// 32-bit values one behind another.
pub open spec fn words(values: Seq<u32>) -> Seq<u8>
    decreases values.len(),
{
    if values.len() == 0 {
        seq![]
    } else {
        words(values.drop_last()) + bytes::le32(values.last())
    }
}

/// 64-bit values one behind another.
pub open spec fn longs(values: Seq<u64>) -> Seq<u8>
    decreases values.len(),
{
    if values.len() == 0 {
        seq![]
    } else {
        longs(values.drop_last()) + bytes::le64(values.last())
    }
}

/// Pairs of 32-bit values one behind another.
pub open spec fn pairs(values: Seq<(u32, u32)>) -> Seq<u8>
    decreases values.len(),
{
    if values.len() == 0 {
        seq![]
    } else {
        pairs(values.drop_last()) + (bytes::le32(values.last().0) + bytes::le32(values.last().1))
    }
}

/// Append a choice of integers, default first.
pub fn pod_choice_int(v: &mut Vec<u8>, choice: u32, values: &[i32])
    ensures
        final(v)@ == with_cell(
            old(v)@,
            SPA_TYPE_CHOICE,
            choice_payload(
                choice,
                SPA_TYPE_INT,
                4,
                words(values@.map_values(|x: i32| x as u32)),
            ),
        ),
{
    let ghost all = values@.map_values(|x: i32| x as u32);
    let mut body: Vec<u8> = Vec::new();
    let mut i: usize = 0;
    assert(all.take(0) =~= seq![]);
    while i < values.len()
        invariant
            i <= values.len(),
            all == values@.map_values(|x: i32| x as u32),
            body@ == words(all.take(i as int)),
        decreases values.len() - i,
    {
        assert(all.take(i + 1).drop_last() =~= all.take(i as int));
        push_u32(&mut body, values[i] as u32);
        i += 1;
    }
    assert(all.take(i as int) =~= all);
    pod_choice(v, choice, SPA_TYPE_INT, 4, body.as_slice());
}

/// Append a choice of ids, default first.
pub fn pod_choice_id(v: &mut Vec<u8>, choice: u32, values: &[u32])
    ensures
        final(v)@ == with_cell(
            old(v)@,
            SPA_TYPE_CHOICE,
            choice_payload(choice, SPA_TYPE_ID, 4, words(values@)),
        ),
{
    let mut body: Vec<u8> = Vec::new();
    let mut i: usize = 0;
    assert(values@.take(0) =~= seq![]);
    while i < values.len()
        invariant
            i <= values.len(),
            body@ == words(values@.take(i as int)),
        decreases values.len() - i,
    {
        assert(values@.take(i + 1).drop_last() =~= values@.take(i as int));
        push_u32(&mut body, values[i]);
        i += 1;
    }
    assert(values@.take(i as int) =~= values@);
    pod_choice(v, choice, SPA_TYPE_ID, 4, body.as_slice());
}

/// Append a choice of long integers, default first.
pub fn pod_choice_long(v: &mut Vec<u8>, choice: u32, values: &[i64])
    ensures
        final(v)@ == with_cell(
            old(v)@,
            SPA_TYPE_CHOICE,
            choice_payload(
                choice,
                SPA_TYPE_LONG,
                8,
                longs(values@.map_values(|x: i64| x as u64)),
            ),
        ),
{
    let ghost all = values@.map_values(|x: i64| x as u64);
    let mut body: Vec<u8> = Vec::new();
    let mut i: usize = 0;
    assert(all.take(0) =~= seq![]);
    while i < values.len()
        invariant
            i <= values.len(),
            all == values@.map_values(|x: i64| x as u64),
            body@ == longs(all.take(i as int)),
        decreases values.len() - i,
    {
        assert(all.take(i + 1).drop_last() =~= all.take(i as int));
        bytes::push_le64(&mut body, values[i] as u64);
        i += 1;
    }
    assert(all.take(i as int) =~= all);
    pod_choice(v, choice, SPA_TYPE_LONG, 8, body.as_slice());
}

fn pair_bytes(values: &[(u32, u32)]) -> (body: Vec<u8>)
    ensures
        body@ == pairs(values@),
{
    let mut body: Vec<u8> = Vec::new();
    let mut i: usize = 0;
    assert(values@.take(0) =~= seq![]);
    while i < values.len()
        invariant
            i <= values.len(),
            body@ == pairs(values@.take(i as int)),
        decreases values.len() - i,
    {
        assert(values@.take(i + 1).drop_last() =~= values@.take(i as int));
        let ghost before = body@;
        push_u32(&mut body, values[i].0);
        push_u32(&mut body, values[i].1);
        assert(body@ =~= pairs(values@.take(i + 1)));
        i += 1;
    }
    assert(values@.take(i as int) =~= values@);
    body
}

/// Append a rectangle choice; `values` are `(w, h)` pairs, default first.
pub fn pod_choice_rect(v: &mut Vec<u8>, choice: u32, values: &[(u32, u32)])
    ensures
        final(v)@ == with_cell(
            old(v)@,
            SPA_TYPE_CHOICE,
            choice_payload(choice, SPA_TYPE_RECTANGLE, 8, pairs(values@)),
        ),
{
    let body = pair_bytes(values);
    pod_choice(v, choice, SPA_TYPE_RECTANGLE, 8, body.as_slice());
}

/// Append a fraction choice; `values` are `(num, den)` pairs, default first.
pub fn pod_choice_frac(v: &mut Vec<u8>, choice: u32, values: &[(u32, u32)])
    ensures
        final(v)@ == with_cell(
            old(v)@,
            SPA_TYPE_CHOICE,
            choice_payload(choice, SPA_TYPE_FRACTION, 8, pairs(values@)),
        ),
{
    let body = pair_bytes(values);
    pod_choice(v, choice, SPA_TYPE_FRACTION, 8, body.as_slice());
}

/// Append one object property: key, flags, then its value cell.
pub fn prop_flags(v: &mut Vec<u8>, key: u32, flags: u32, value: &[u8])
    ensures
        final(v)@ == old(v)@ + (bytes::le32(key) + bytes::le32(flags) + value@),
{
    let ghost start = v@;
    push_u32(v, key);
    push_u32(v, flags);
    bytes::push_all(v, value);
    assert(v@ =~= start + (bytes::le32(key) + bytes::le32(flags) + value@));
}

/// Append one object property without flags.
pub fn prop(v: &mut Vec<u8>, key: u32, value: &[u8])
    ensures
        final(v)@ == old(v)@ + (bytes::le32(key) + bytes::le32(0) + value@),
{
    prop_flags(v, key, 0, value);
}

/// An object pod: a cell holding the object's type, its param id and its properties.
pub open spec fn object_pod(ty: u32, id: u32, props: Seq<u8>) -> Seq<u8> {
    cell(SPA_TYPE_OBJECT, bytes::le32(ty) + bytes::le32(id) + props)
}

/// An object pod of type `ty` carrying param `id` and the properties given.
pub fn object(ty: u32, id: u32, props: &[u8]) -> (v: Vec<u8>)
    ensures
        v@ == object_pod(ty, id, props@),
{
    let mut body: Vec<u8> = Vec::new();
    push_u32(&mut body, ty);
    push_u32(&mut body, id);
    bytes::push_all(&mut body, props);
    assert(body@ =~= bytes::le32(ty) + bytes::le32(id) + props@);
    let mut v: Vec<u8> = Vec::new();
    pod_prim(&mut v, SPA_TYPE_OBJECT, body.as_slice());
    assert(v@ =~= object_pod(ty, id, props@));
    v
}

/// One property of an object pod: its key, flags, and value cell.
#[derive(Clone, Copy, Debug)]
pub struct PodProp<'a> {
    pub key: u32,
    pub flags: u32,
    pub ty: u32,
    pub payload: &'a [u8],
}

/// A property's key and flags, and its value's type and bytes.
pub struct PropView {
    pub key: u32,
    pub flags: u32,
    pub ty: u32,
    pub payload: Seq<u8>,
}

impl<'a> View for PodProp<'a> {
    type V = PropView;

    open spec fn view(&self) -> PropView {
        PropView { key: self.key, flags: self.flags, ty: self.ty, payload: self.payload@ }
    }
}

/// The 32-bit value at `off`, where it is there.
pub open spec fn word_at(s: Seq<u8>, off: int) -> Option<u32> {
    if 0 <= off && off + 4 <= s.len() {
        Some(bytes::le32_at(s, off))
    } else {
        None
    }
}

fn u32_at(v: &[u8], off: usize) -> (r: Option<u32>)
    ensures
        r == word_at(v@, off as int),
{
    if v.len() < 4 || off > v.len() - 4 {
        None
    } else {
        Some(bytes::read_le32(v, off))
    }
}

/// The property at `off`: its key, its flags, then its value's size, type and bytes.
#[verifier::opaque]
pub open spec fn prop_at(body: Seq<u8>, off: int) -> PropView {
    PropView {
        key: bytes::le32_at(body, off),
        flags: bytes::le32_at(body, off + 4),
        ty: bytes::le32_at(body, off + 12),
        payload: body.subrange(off + 16, off + 16 + value_size(body, off)),
    }
}

/// The size of the value of the property at `off`.
#[verifier::opaque]
pub open spec fn value_size(body: Seq<u8>, off: int) -> nat {
    bytes::le32_at(body, off + 8) as nat
}

/// The properties that stand in an object's body from `off` on; none where one is cut short.
pub open spec fn props_from(body: Seq<u8>, off: int) -> Option<Seq<PropView>>
    decreases body.len() + 8 - off,
{
    if off < 0 || off + 16 > body.len() {
        Some(seq![])
    } else {
        let size = value_size(body, off);
        if off + 16 + size > body.len() {
            None
        } else {
            match props_from(body, off + 16 + ceil8(size as int)) {
                None => None,
                Some(rest) => Some(seq![prop_at(body, off)] + rest),
            }
        }
    }
}

/// An object pod's type, param id and properties; none for anything else.
pub open spec fn object_view(pod: Seq<u8>) -> Option<(u32, u32, Seq<PropView>)> {
    if pod.len() < 8 || bytes::le32_at(pod, 4) != SPA_TYPE_OBJECT {
        None
    } else {
        let size = bytes::le32_at(pod, 0) as int;
        if pod.len() < size + 8 || size < 8 {
            None
        } else {
            let body = pod.subrange(8, 8 + size);
            match props_from(body, 8) {
                None => None,
                Some(props) => Some((bytes::le32_at(body, 0), bytes::le32_at(body, 4), props)),
            }
        }
    }
}

/// The views of a property list.
pub open spec fn prop_views(props: Seq<PodProp<'_>>) -> Seq<PropView> {
    props.map_values(|p: PodProp<'_>| p@)
}

/// Read the property at `off`, where it stands whole.
fn read_prop(body: &[u8], off: usize) -> (r: Option<PodProp<'_>>)
    requires
        off + 16 <= body.len(),
    ensures
        r is Some <==> off + 16 + value_size(body@, off as int) <= body.len(),
        r matches Some(p) ==> p@ == prop_at(body@, off as int) && p.payload@.len() == value_size(
            body@,
            off as int,
        ),
{
    proof {
        reveal(prop_at);
        reveal(value_size);
    }
    let key: u32 = bytes::read_le32(body, off);
    let flags: u32 = bytes::read_le32(body, off + 4);
    let size: u32 = bytes::read_le32(body, off + 8);
    let ty: u32 = bytes::read_le32(body, off + 12);
    if ((body.len() - off - 16) as u128) < size as u128 {
        return None;
    }
    let payload = slice_subrange(body, off + 16, off + 16 + size as usize);
    Some(PodProp { key, flags, ty, payload })
}

/// Walk an object pod: `(object type, param id, properties)`; `None` for anything else.
pub fn object_props(pod: &[u8]) -> (r: Option<(u32, u32, Vec<PodProp<'_>>)>)
    ensures
        match object_view(pod@) {
            None => r is None,
            Some((ty, id, props)) => r matches Some(got) && got.0 == ty && got.1 == id
                && prop_views(got.2@) == props,
        },
{
    if pod.len() < 8 {
        return None;
    }
    let size: u32 = bytes::read_le32(pod, 0);
    if bytes::read_le32(pod, 4) != SPA_TYPE_OBJECT || ((pod.len() - 8) as u128) < size as u128
        || size < 8 {
        return None;
    }
    let body = slice_subrange(pod, 8, 8 + size as usize);
    let ty: u32 = bytes::read_le32(body, 0);
    let id: u32 = bytes::read_le32(body, 4);
    let mut props: Vec<PodProp<'_>> = Vec::new();
    let mut off: usize = 8;
    let n: usize = body.len();
    let ghost whole = props_from(body@, 8);
    assert(prop_views(props@) =~= seq![]);
    while off <= n && n - off >= 16
        invariant
            n == body.len(),
            match props_from(body@, off as int) {
                None => whole is None,
                Some(rest) => whole == Some(prop_views(props@) + rest),
            },
            whole == props_from(body@, 8),
            match object_view(pod@) {
                None => whole is None,
                Some((t, i, p)) => whole == Some(p) && t == ty && i == id,
            },
        decreases body.len() + 16 - off,
    {
        let found = match read_prop(body, off) {
            None => {
                return None;
            },
            Some(p) => p,
        };
        let len: usize = found.payload.len();
        let ghost before = prop_views(props@);
        let ghost here = prop_at(body@, off as int);
        props.push(found);
        assert(prop_views(props@) =~= before.push(here));
        let ghost tail = props_from(body@, off + 16 + ceil8(len as int));
        proof {
            match tail {
                None => {},
                Some(rest) => {
                    assert(before + (seq![here] + rest) =~= prop_views(props@) + rest);
                },
            }
        }
        let pad: usize = (8 - len % 8) % 8;
        assert(ceil8(len as int) == len + pad);
        if n - off - 16 - len < pad {
            // The last property's padding runs past the body: nothing stands behind it.
            assert(tail == Some(Seq::<PropView>::empty()));
            assert(prop_views(props@) + Seq::<PropView>::empty() =~= prop_views(props@));
            return Some((ty, id, props));
        }
        off = off + 16 + len + pad;
    }
    assert(props_from(body@, off as int) == Some(Seq::<PropView>::empty()));
    assert(prop_views(props@) + Seq::<PropView>::empty() =~= prop_views(props@));
    Some((ty, id, props))
}

/// A cell's first value: a plain cell as it is, a choice cell's default (its only value once
/// fixated), by its type and bytes.
pub open spec fn value_of(ty: u32, payload: Seq<u8>) -> Option<(u32, Seq<u8>)> {
    if ty != SPA_TYPE_CHOICE {
        Some((ty, payload))
    } else if payload.len() < 16 {
        None
    } else {
        let size = bytes::le32_at(payload, 8) as int;
        if payload.len() < 16 + size {
            None
        } else {
            Some((bytes::le32_at(payload, 12), payload.subrange(16, 16 + size)))
        }
    }
}

/// A cell's first value: its type and bytes.
pub fn pod_value(ty: u32, payload: &[u8]) -> (r: Option<(u32, &[u8])>)
    ensures
        match value_of(ty, payload@) {
            None => r is None,
            Some((t, b)) => r matches Some(got) && got.0 == t && got.1@ == b,
        },
{
    if ty != SPA_TYPE_CHOICE {
        return Some((ty, payload));
    }
    if payload.len() < 16 {
        return None;
    }
    let size: u32 = bytes::read_le32(payload, 8);
    let child: u32 = bytes::read_le32(payload, 12);
    if ((payload.len() - 16) as u128) < size as u128 {
        return None;
    }
    Some((child, slice_subrange(payload, 16, 16 + size as usize)))
}

impl PropView {
    /// An id or an integer.
    pub open spec fn as_word(self) -> Option<u32> {
        match value_of(self.ty, self.payload) {
            Some((ty, b)) => if ty == SPA_TYPE_ID || ty == SPA_TYPE_INT {
                word_at(b, 0)
            } else {
                None
            },
            None => None,
        }
    }

    /// A long integer.
    pub open spec fn as_long(self) -> Option<i64> {
        match value_of(self.ty, self.payload) {
            Some((ty, b)) => if ty == SPA_TYPE_LONG && b.len() >= 8 {
                Some(bytes::le64_at(b, 0) as i64)
            } else {
                None
            },
            None => None,
        }
    }

    /// A rectangle or fraction pair.
    pub open spec fn as_two(self) -> Option<(u32, u32)> {
        match value_of(self.ty, self.payload) {
            Some((ty, b)) => if (ty == SPA_TYPE_RECTANGLE || ty == SPA_TYPE_FRACTION) && b.len()
                >= 8 {
                Some((bytes::le32_at(b, 0), bytes::le32_at(b, 4)))
            } else {
                None
            },
            None => None,
        }
    }
}

impl<'a> PodProp<'a> {
    /// The property's value as an id or an integer.
    pub fn as_u32(&self) -> (r: Option<u32>)
        ensures
            r == self@.as_word(),
    {
        match pod_value(self.ty, self.payload) {
            None => None,
            Some((ty, b)) => if ty == SPA_TYPE_ID || ty == SPA_TYPE_INT {
                u32_at(b, 0)
            } else {
                None
            },
        }
    }

    /// The property's value as a long integer.
    pub fn as_i64(&self) -> (r: Option<i64>)
        ensures
            r == self@.as_long(),
    {
        match pod_value(self.ty, self.payload) {
            None => None,
            Some((ty, b)) => if ty == SPA_TYPE_LONG && b.len() >= 8 {
                Some(bytes::read_le64(b, 0) as i64)
            } else {
                None
            },
        }
    }

    /// The property's value as a rectangle or fraction pair.
    pub fn as_pair(&self) -> (r: Option<(u32, u32)>)
        ensures
            r == self@.as_two(),
    {
        match pod_value(self.ty, self.payload) {
            None => None,
            Some((ty, b)) => if (ty == SPA_TYPE_RECTANGLE || ty == SPA_TYPE_FRACTION) && b.len()
                >= 8 {
                Some((bytes::read_le32(b, 0), bytes::read_le32(b, 4)))
            } else {
                None
            },
        }
    }
}

/// The first property of this key stands at `i`.
pub open spec fn first_with_key(props: Seq<PodProp<'_>>, key: u32, i: int) -> bool {
    0 <= i < props.len() && props[i].key == key && forall|j: int|
        0 <= j < i ==> (#[trigger] props[j]).key != key
}

/// The property `key` of an object pod's property list, the first where there are several.
pub fn find_prop<'a>(props: &'a [PodProp<'a>], key: u32) -> (r: Option<&'a PodProp<'a>>)
    ensures
        match r {
            Some(p) => exists|i: int| #[trigger] first_with_key(props@, key, i) && *p == props@[i],
            None => forall|j: int| 0 <= j < props@.len() ==> (#[trigger] props@[j]).key != key,
        },
{
    let mut i: usize = 0;
    while i < props.len()
        invariant
            i <= props.len(),
            forall|j: int| 0 <= j < i ==> (#[trigger] props@[j]).key != key,
        decreases props.len() - i,
    {
        if props[i].key == key {
            assert(first_with_key(props@, key, i as int));
            return Some(&props[i]);
        }
        i += 1;
    }
    None
}

} // verus!
