//! Built pods read back: what the builders write is what the readers find.

use vstd::prelude::*;
use crate::bytes;
use crate::pipewire;
use crate::pipewire::PropView;

verus! {

/// A property as it is built: key, flags, value cell.
pub open spec fn prop_bytes(p: PropView) -> Seq<u8> {
    bytes::le32(p.key) + bytes::le32(p.flags) + pipewire::cell(p.ty, p.payload)
}

/// Properties one behind another.
pub open spec fn props_bytes(props: Seq<PropView>) -> Seq<u8>
    decreases props.len(),
{
    if props.len() == 0 {
        seq![]
    } else {
        prop_bytes(props[0]) + props_bytes(props.drop_first())
    }
}

/// An object built from properties reads back as its type, its id and those properties, in order,
/// each with its flags and value.
pub proof fn objects_read_back(ty: u32, id: u32, props: Seq<PropView>)
    requires
        8 + props_bytes(props).len() <= u32::MAX,
    ensures
        pipewire::object_view(pipewire::object_pod(ty, id, props_bytes(props))) == Some(
            (ty, id, props),
        ),
{
    let rest = props_bytes(props);
    let head = bytes::le32(ty) + bytes::le32(id);
    let body = head + rest;
    let pod = pipewire::object_pod(ty, id, rest);
    let size = body.len() as u32;
    assert(body =~= bytes::le32(ty) + bytes::le32(id) + rest);
    assert(pod.subrange(0, 4) =~= bytes::le32(size));
    assert(pod.subrange(4, 8) =~= bytes::le32(pipewire::SPA_TYPE_OBJECT));
    bytes::le32_read_at(pod, 0, size);
    bytes::le32_read_at(pod, 4, pipewire::SPA_TYPE_OBJECT);
    assert(pod.subrange(8, 8 + size) =~= body);
    assert(body.subrange(0, 4) =~= bytes::le32(ty));
    assert(body.subrange(4, 8) =~= bytes::le32(id));
    bytes::le32_read_at(body, 0, ty);
    bytes::le32_read_at(body, 4, id);
    props_read_back(head, props);
}

/// Where the fields of a property stand.
proof fn field_ranges(
    key: Seq<u8>,
    flags: Seq<u8>,
    size: Seq<u8>,
    ty: Seq<u8>,
    payload: Seq<u8>,
    pad: Seq<u8>,
)
    requires
        key.len() == 4,
        flags.len() == 4,
        size.len() == 4,
        ty.len() == 4,
    ensures
        ({
            let s = key + flags + ((size + ty + payload) + pad);
            &&& s.len() == 16 + payload.len() + pad.len()
            &&& s.subrange(0, 4) == key
            &&& s.subrange(4, 8) == flags
            &&& s.subrange(8, 12) == size
            &&& s.subrange(12, 16) == ty
            &&& s.subrange(16, 16 + payload.len() as int) == payload
        }),
{
    let s = key + flags + ((size + ty + payload) + pad);
    assert(s.subrange(0, 4) =~= key);
    assert(s.subrange(4, 8) =~= flags);
    assert(s.subrange(8, 12) =~= size);
    assert(s.subrange(12, 16) =~= ty);
    assert(s.subrange(16, 16 + payload.len() as int) =~= payload);
}

/// A range of a part is that range of the whole, moved on by what stands ahead of the part.
proof fn range_of_part(pre: Seq<u8>, part: Seq<u8>, rest: Seq<u8>, i: int, j: int)
    requires
        0 <= i <= j <= part.len(),
    ensures
        (pre + (part + rest)).subrange(pre.len() + i, pre.len() + j) == part.subrange(i, j),
{
    assert((pre + (part + rest)).subrange(pre.len() + i, pre.len() + j) =~= part.subrange(i, j));
}

proof fn prop_fields(p: PropView)
    requires
        p.payload.len() <= u32::MAX,
    ensures
        ({
            let s = prop_bytes(p);
            &&& s.len() == 16 + pipewire::ceil8(p.payload.len() as int)
            &&& s.subrange(0, 4) == bytes::le32(p.key)
            &&& s.subrange(4, 8) == bytes::le32(p.flags)
            &&& s.subrange(8, 12) == bytes::le32(p.payload.len() as u32)
            &&& s.subrange(12, 16) == bytes::le32(p.ty)
            &&& s.subrange(16, 16 + p.payload.len() as int) == p.payload
        }),
{
    let size = bytes::le32(p.payload.len() as u32);
    let ty = bytes::le32(p.ty);
    let inner = size + ty + p.payload;
    let pad = bytes::zeros(pipewire::padding(inner.len() as int));
    field_ranges(bytes::le32(p.key), bytes::le32(p.flags), size, ty, p.payload, pad);
    assert(inner.len() == 8 + p.payload.len());
    assert(p.payload.len() + pad.len() == pipewire::ceil8(p.payload.len() as int));
}

proof fn one_prop_reads_back(pre: Seq<u8>, p: PropView, rest: Seq<u8>)
    requires
        p.payload.len() <= u32::MAX,
    ensures
        pipewire::value_size(pre + (prop_bytes(p) + rest), pre.len() as int) == p.payload.len(),
        pipewire::prop_at(pre + (prop_bytes(p) + rest), pre.len() as int) == p,
        prop_bytes(p).len() == 16 + pipewire::ceil8(p.payload.len() as int),
{
    reveal(pipewire::prop_at);
    reveal(pipewire::value_size);
    prop_fields(p);
    let one = prop_bytes(p);
    let off = pre.len() as int;
    let n = p.payload.len() as int;
    range_of_part(pre, one, rest, 0, 4);
    range_of_part(pre, one, rest, 4, 8);
    range_of_part(pre, one, rest, 8, 12);
    range_of_part(pre, one, rest, 12, 16);
    range_of_part(pre, one, rest, 16, 16 + n);
    let body = pre + (one + rest);
    bytes::le32_read_at(body, off, p.key);
    bytes::le32_read_at(body, off + 4, p.flags);
    bytes::le32_read_at(body, off + 8, n as u32);
    bytes::le32_read_at(body, off + 12, p.ty);
}

proof fn props_read_back(pre: Seq<u8>, props: Seq<PropView>)
    requires
        props_bytes(props).len() <= u32::MAX,
    ensures
        pipewire::props_from(pre + props_bytes(props), pre.len() as int) == Some(props),
    decreases props.len(),
{
    let body = pre + props_bytes(props);
    let off = pre.len() as int;
    if props.len() == 0 {
        assert(pipewire::props_from(body, off) == Some(Seq::<PropView>::empty()));
        assert(props =~= Seq::<PropView>::empty());
    } else {
        let p = props[0];
        let more = props.drop_first();
        let one = prop_bytes(p);
        assert(one.len() >= 16 + p.payload.len());
        one_prop_reads_back(pre, p, props_bytes(more));
        assert(body =~= pre + (one + props_bytes(more)));
        let pre2 = pre + one;
        assert(body =~= pre2 + props_bytes(more));
        props_read_back(pre2, more);
        assert(pre2.len() == off + 16 + pipewire::ceil8(p.payload.len() as int));
        assert(seq![p] + more =~= props);
    }
}

/// A property holding a value, plain or a choice.
pub open spec fn holding(key: u32, flags: u32, ty: u32, payload: Seq<u8>) -> PropView {
    PropView { key, flags, ty, payload }
}

/// Id and integer cells read back as the word written, and so does a choice of them as its first
/// value.
pub proof fn words_read_back(key: u32, flags: u32, choice: u32, values: Seq<u32>, x: u32)
    requires
        values.len() > 0,
    ensures
        holding(key, flags, pipewire::SPA_TYPE_ID, bytes::le32(x)).as_word() == Some(x),
        holding(key, flags, pipewire::SPA_TYPE_INT, bytes::le32(x)).as_word() == Some(x),
        holding(
            key,
            flags,
            pipewire::SPA_TYPE_CHOICE,
            pipewire::choice_payload(choice, pipewire::SPA_TYPE_ID, 4, pipewire::words(values)),
        ).as_word() == Some(values[0]),
        holding(
            key,
            flags,
            pipewire::SPA_TYPE_CHOICE,
            pipewire::choice_payload(choice, pipewire::SPA_TYPE_INT, 4, pipewire::words(values)),
        ).as_word() == Some(values[0]),
{
    bytes::le32_reads_back(x);
    words_front(values);
    let w = pipewire::words(values);
    choice_default(choice, pipewire::SPA_TYPE_ID, 4, w);
    choice_default(choice, pipewire::SPA_TYPE_INT, 4, w);
    bytes::le32_reads_back(values[0]);
}

/// A choice of long integers reads back as its first value.
pub proof fn longs_read_back(key: u32, flags: u32, choice: u32, values: Seq<i64>)
    requires
        values.len() > 0,
    ensures
        holding(
            key,
            flags,
            pipewire::SPA_TYPE_CHOICE,
            pipewire::choice_payload(
                choice,
                pipewire::SPA_TYPE_LONG,
                8,
                pipewire::longs(values.map_values(|x: i64| x as u64)),
            ),
        ).as_long() == Some(values[0]),
{
    let all = values.map_values(|x: i64| x as u64);
    longs_front(all);
    choice_default(choice, pipewire::SPA_TYPE_LONG, 8, pipewire::longs(all));
    bytes::le64_reads_back(all[0]);
    let x = values[0];
    assert(x as u64 as i64 == x) by (bit_vector);
}

/// Rectangle and fraction cells read back as the pair written, and so does a choice of them as its
/// first value.
pub proof fn pairs_read_back(
    key: u32,
    flags: u32,
    choice: u32,
    values: Seq<(u32, u32)>,
    a: u32,
    b: u32,
)
    requires
        values.len() > 0,
    ensures
        holding(
            key,
            flags,
            pipewire::SPA_TYPE_RECTANGLE,
            bytes::le32(a) + bytes::le32(b),
        ).as_two() == Some((a, b)),
        holding(
            key,
            flags,
            pipewire::SPA_TYPE_FRACTION,
            bytes::le32(a) + bytes::le32(b),
        ).as_two() == Some((a, b)),
        holding(
            key,
            flags,
            pipewire::SPA_TYPE_CHOICE,
            pipewire::choice_payload(
                choice,
                pipewire::SPA_TYPE_RECTANGLE,
                8,
                pipewire::pairs(values),
            ),
        ).as_two() == Some(values[0]),
        holding(
            key,
            flags,
            pipewire::SPA_TYPE_CHOICE,
            pipewire::choice_payload(
                choice,
                pipewire::SPA_TYPE_FRACTION,
                8,
                pipewire::pairs(values),
            ),
        ).as_two() == Some(values[0]),
{
    pair_reads_back(a, b);
    pair_reads_back(values[0].0, values[0].1);
    pairs_front(values);
    choice_default(choice, pipewire::SPA_TYPE_RECTANGLE, 8, pipewire::pairs(values));
    choice_default(choice, pipewire::SPA_TYPE_FRACTION, 8, pipewire::pairs(values));
}

proof fn pair_reads_back(a: u32, b: u32)
    ensures
        (bytes::le32(a) + bytes::le32(b)).len() == 8,
        bytes::le32_at(bytes::le32(a) + bytes::le32(b), 0) == a,
        bytes::le32_at(bytes::le32(a) + bytes::le32(b), 4) == b,
{
    let s = bytes::le32(a) + bytes::le32(b);
    assert(s.subrange(0, 4) =~= bytes::le32(a));
    assert(s.subrange(4, 8) =~= bytes::le32(b));
    bytes::le32_read_at(s, 0, a);
    bytes::le32_read_at(s, 4, b);
}

/// A choice's first value is its default.
proof fn choice_default(choice: u32, ty: u32, size: u32, values: Seq<u8>)
    requires
        size <= values.len(),
    ensures
        pipewire::value_of(
            pipewire::SPA_TYPE_CHOICE,
            pipewire::choice_payload(choice, ty, size, values),
        ) == Some((ty, values.take(size as int))),
{
    let p = pipewire::choice_payload(choice, ty, size, values);
    assert(p.subrange(8, 12) =~= bytes::le32(size));
    assert(p.subrange(12, 16) =~= bytes::le32(ty));
    bytes::le32_read_at(p, 8, size);
    bytes::le32_read_at(p, 12, ty);
    assert(p.subrange(16, 16 + size) =~= values.take(size as int));
}

proof fn words_front(values: Seq<u32>)
    requires
        values.len() > 0,
    ensures
        pipewire::words(values).len() >= 4,
        pipewire::words(values).take(4) == bytes::le32(values[0]),
    decreases values.len(),
{
    if values.len() == 1 {
        assert(values.drop_last() =~= seq![]);
        assert(pipewire::words(values) =~= bytes::le32(values[0]));
        assert(pipewire::words(values).take(4) =~= bytes::le32(values[0]));
    } else {
        words_front(values.drop_last());
        assert(pipewire::words(values).take(4) =~= pipewire::words(values.drop_last()).take(4));
    }
}

proof fn longs_front(values: Seq<u64>)
    requires
        values.len() > 0,
    ensures
        pipewire::longs(values).len() >= 8,
        pipewire::longs(values).take(8) == bytes::le64(values[0]),
    decreases values.len(),
{
    if values.len() == 1 {
        assert(values.drop_last() =~= seq![]);
        assert(pipewire::longs(values) =~= bytes::le64(values[0]));
        assert(pipewire::longs(values).take(8) =~= bytes::le64(values[0]));
    } else {
        longs_front(values.drop_last());
        assert(pipewire::longs(values).take(8) =~= pipewire::longs(values.drop_last()).take(8));
    }
}

proof fn pairs_front(values: Seq<(u32, u32)>)
    requires
        values.len() > 0,
    ensures
        pipewire::pairs(values).len() >= 8,
        pipewire::pairs(values).take(8) == bytes::le32(values[0].0) + bytes::le32(values[0].1),
    decreases values.len(),
{
    let first = bytes::le32(values[0].0) + bytes::le32(values[0].1);
    if values.len() == 1 {
        assert(values.drop_last() =~= seq![]);
        assert(pipewire::pairs(values) =~= first);
        assert(pipewire::pairs(values).take(8) =~= first);
    } else {
        pairs_front(values.drop_last());
        assert(pipewire::pairs(values).take(8) =~= pipewire::pairs(values.drop_last()).take(8));
    }
}

} // verus!
