//! Pixel rows between buffers: straight alpha for cursors, colour order for screenshots, and row
//! copies into a client's buffer.

use vstd::prelude::*;

verus! {

/// A colour under straight alpha, from one under premultiplied alpha `a`: divided by it and
/// rounded, half up, and at most full.
pub open spec fn straight(c: u8, a: u8) -> u8 {
    let v = (c * 255 + a / 2) / (a as int);
    if v > 255 {
        255
    } else {
        v as u8
    }
}

/// A byte of a pixel under straight alpha: nothing where the pixel is transparent, and as it was
/// where it is opaque.
pub open spec fn unpremultiplied(px: Seq<u8>, k: int) -> u8 {
    let a = px[3];
    if a == 0 {
        0
    } else if a < 255 && k < 3 {
        straight(px[k], a)
    } else {
        px[k]
    }
}

/// The pixel that a byte belongs to.
pub open spec fn pixel_of(data: Seq<u8>, i: int) -> Seq<u8> {
    data.subrange(i / 4 * 4, i / 4 * 4 + 4)
}

fn straight_of(c: u8, a: u8) -> (r: u8)
    requires
        a > 0,
    ensures
        r == straight(c, a),
{
    let v: u32 = (c as u32 * 255 + a as u32 / 2) / a as u32;
    if v > 255 {
        255
    } else {
        v as u8
    }
}

/// Convert premultiplied RGBA pixels to the straight alpha that PNG expects. Every cursor source
/// stores premultiplied colour; encoding those values as straight alpha would darken antialiased
/// edges twice.
pub fn unpremultiply_rgba(data: &mut Vec<u8>)
    requires
        old(data)@.len() % 4 == 0,
    ensures
        final(data)@.len() == old(data)@.len(),
        forall|i: int|
            0 <= i < old(data)@.len() ==> #[trigger] final(data)@[i] == unpremultiplied(
                pixel_of(old(data)@, i),
                i % 4,
            ),
{
    let ghost before = data@;
    let n: usize = data.len();
    let mut at: usize = 0;
    while at < n
        invariant
            at <= n,
            at % 4 == 0,
            n == before.len(),
            n % 4 == 0,
            data@.len() == n,
            forall|i: int|
                0 <= i < at ==> #[trigger] data@[i] == unpremultiplied(pixel_of(before, i), i % 4),
            forall|i: int| at <= i < n ==> data@[i] == before[i],
        decreases n - at,
    {
        let r: u8 = data[at];
        let g: u8 = data[at + 1];
        let b: u8 = data[at + 2];
        let a: u8 = data[at + 3];
        let ghost px = before.subrange(at as int, at + 4);
        assert(px =~= seq![r, g, b, a]);
        if a == 0 {
            data.set(at, 0);
            data.set(at + 1, 0);
            data.set(at + 2, 0);
            data.set(at + 3, 0);
        } else if a < 255 {
            data.set(at, straight_of(r, a));
            data.set(at + 1, straight_of(g, a));
            data.set(at + 2, straight_of(b, a));
        }
        assert forall|i: int| 0 <= i < at + 4 implies #[trigger] data@[i] == unpremultiplied(
            pixel_of(before, i),
            i % 4,
        ) by {
            if i >= at {
                assert(i / 4 * 4 == at);
                assert(pixel_of(before, i) =~= px);
            }
        }
        at += 4;
    }
}

/// A cursor drawn over nothing stays itself: transparent pixels come out black and clear, opaque
/// ones as they were.
pub proof fn full_and_no_alpha_are_plain(px: Seq<u8>, k: int)
    requires
        px.len() == 4,
        0 <= k < 4,
    ensures
        px[3] == 255 ==> unpremultiplied(px, k) == px[k],
        px[3] == 0 ==> unpremultiplied(px, k) == 0,
        unpremultiplied(px, 3) == px[3],
{
}

/// Premultiplying what was made straight gives the colour back, for every colour that the alpha
/// admits.
pub proof fn straight_alpha_reads_back(c: u8, a: u8)
    requires
        0 < a,
        c <= a,
    ensures
        (straight(c, a) * a + 127) / 255 == c,
{
    let v = (c * 255 + a / 2) / (a as int);
    let n = c * 255 + a / 2;
    assert(a * v <= n < a * v + a) by (nonlinear_arith)
        requires
            v == n / (a as int),
            a > 0,
    ;
    assert(v <= 255) by (nonlinear_arith)
        requires
            a * v <= n,
            n == c * 255 + a / 2,
            c <= a,
            a > 0,
    ;
    assert(straight(c, a) == v);
    assert(v * a == a * v) by (nonlinear_arith);
    assert(a * v <= c * 255 + a / 2);
    assert(a * v > c * 255 + a / 2 - a);
    assert(c * 255 <= a * v + 127 < c * 255 + 255);
}

/// A row of pixels with the first and the third colour of each exchanged.
pub open spec fn exchanged(data: Seq<u8>, i: int) -> u8 {
    if i % 4 == 0 {
        data[i + 2]
    } else if i % 4 == 2 {
        data[i - 2]
    } else {
        data[i]
    }
}

/// Turn the colour order around, red first for blue first. Bytes that make no whole pixel stay.
pub fn swap_red_blue(data: &mut Vec<u8>)
    ensures
        final(data)@.len() == old(data)@.len(),
        forall|i: int|
            0 <= i < old(data)@.len() ==> #[trigger] final(data)@[i] == if i < old(data)@.len() / 4
                * 4 {
                exchanged(old(data)@, i)
            } else {
                old(data)@[i]
            },
{
    let ghost before = data@;
    let n: usize = data.len();
    let whole: usize = n / 4 * 4;
    let mut at: usize = 0;
    while at < whole
        invariant
            at <= whole <= n,
            at % 4 == 0,
            whole == n / 4 * 4,
            n == before.len(),
            data@.len() == n,
            forall|i: int| 0 <= i < at ==> #[trigger] data@[i] == exchanged(before, i),
            forall|i: int| at <= i < n ==> data@[i] == before[i],
        decreases whole - at,
    {
        let first: u8 = data[at];
        let third: u8 = data[at + 2];
        data.set(at, third);
        data.set(at + 2, first);
        at += 4;
    }
}

/// Turning the colour order around twice changes nothing.
pub proof fn swapping_twice_changes_nothing(data: Seq<u8>, once: Seq<u8>, i: int)
    requires
        data.len() % 4 == 0,
        once.len() == data.len(),
        forall|j: int| 0 <= j < data.len() ==> #[trigger] once[j] == exchanged(data, j),
        0 <= i < data.len(),
    ensures
        exchanged(once, i) == data[i],
{
}

/// How a client's buffer is laid out.
#[derive(Clone, Copy, Debug, PartialEq, Eq, Structural)]
pub struct ShmSpec {
    pub width: i32,
    pub height: i32,
    pub stride: i32,
    pub offset: i32,
}

/// Why rows cannot be copied into a client's buffer.
#[derive(Clone, Copy, Debug, PartialEq, Eq, Structural)]
pub enum ShmError {
    /// The source is smaller than advertised.
    Source,
    /// The buffer is smaller than the output.
    Small,
    /// The buffer's stride or length does not match.
    Layout,
}

/// The bytes of a row of this many pixels.
pub open spec fn row_len(width: i32) -> int {
    if width > 0 {
        width * 4
    } else {
        0
    }
}

/// Why rows cannot be copied, if they cannot.
pub open spec fn shm_refusal(
    src: Seq<u8>,
    len: int,
    spec: ShmSpec,
    width: i32,
    height: i32,
) -> Option<ShmError> {
    if src.len() < row_len(width) * height {
        Some(ShmError::Source)
    } else if spec.width < width || spec.height < height {
        Some(ShmError::Small)
    } else if spec.stride < row_len(width) || len < spec.offset + spec.stride * height {
        Some(ShmError::Layout)
    } else {
        None
    }
}

/// The byte of a buffer after rows were copied into it: the source's within a row, else what was
/// there.
pub open spec fn copied(
    src: Seq<u8>,
    before: Seq<u8>,
    spec: ShmSpec,
    width: i32,
    rows: int,
    i: int,
) -> u8 {
    let rel = i - spec.offset;
    if spec.stride > 0 && rel >= 0 && rel / (spec.stride as int) < rows && rel % (spec.stride as int)
        < row_len(width) {
        src[rel / (spec.stride as int) * row_len(width) + rel % (spec.stride as int)]
    } else {
        before[i]
    }
}

/// Copy full rows, tightly packed, into a client's buffer, honouring its own offset and stride.
pub fn copy_rows_into_shm(
    dst: &mut Vec<u8>,
    spec: ShmSpec,
    src: &[u8],
    width: i32,
    height: i32,
) -> (r: Result<(), ShmError>)
    requires
        height >= 0,
        spec.stride >= 0,
        spec.offset >= 0,
    ensures
        match r {
            Ok(_) => shm_refusal(src@, old(dst)@.len() as int, spec, width, height) is None,
            Err(e) => shm_refusal(src@, old(dst)@.len() as int, spec, width, height) == Some(e),
        },
        final(dst)@.len() == old(dst)@.len(),
        r is Err ==> final(dst)@ == old(dst)@,
        r is Ok ==> forall|i: int|
            0 <= i < old(dst)@.len() ==> #[trigger] final(dst)@[i] == copied(
                src@,
                old(dst)@,
                spec,
                width,
                height as int,
                i,
            ),
{
    let row: u64 = if width > 0 {
        width as u64 * 4
    } else {
        0
    };
    let rows: u64 = height as u64;
    let stride: u64 = spec.stride as u64;
    let offset: u64 = spec.offset as u64;
    assert(row * rows <= 0x1_ffff_fffc * 0x7fff_ffff) by (nonlinear_arith)
        requires
            row <= 0x1_ffff_fffc,
            rows <= 0x7fff_ffff,
    ;
    assert(stride * rows <= 0x8000_0000 * 0x8000_0000) by (nonlinear_arith)
        requires
            stride <= 0x8000_0000,
            rows <= 0x8000_0000,
    ;
    if (src.len() as u64) < row * rows {
        return Err(ShmError::Source);
    }
    if spec.width < width || spec.height < height {
        return Err(ShmError::Small);
    }
    if stride < row || (dst.len() as u64) < offset + stride * rows {
        return Err(ShmError::Layout);
    }
    let ghost before = dst@;
    let mut y: u64 = 0;
    while y < rows
        invariant
            y <= rows,
            rows == height,
            row == row_len(width),
            row <= stride,
            stride == spec.stride,
            offset == spec.offset,
            dst@.len() == before.len(),
            before.len() >= offset + stride * rows,
            before.len() <= usize::MAX,
            src@.len() >= row * rows,
            src@.len() <= usize::MAX,
            stride * rows <= 0x8000_0000 * 0x8000_0000,
            row * rows <= 0x1_ffff_fffc * 0x7fff_ffff,
            forall|i: int|
                0 <= i < before.len() ==> #[trigger] dst@[i] == copied(
                    src@,
                    before,
                    spec,
                    width,
                    y as int,
                    i,
                ),
        decreases rows - y,
    {
        proof {
            lemma_row_fits(y as int, rows as int, row as int);
            lemma_row_fits(y as int, rows as int, stride as int);
        }
        let from: u64 = y * row;
        let to: u64 = offset + y * stride;
        let mut x: u64 = 0;
        while x < row
            invariant
                x <= row,
                y < rows,
                row == row_len(width),
                row <= stride,
                stride == spec.stride,
                offset == spec.offset,
                from == y * row,
                to == offset + y * stride,
                from + row <= src@.len(),
                to + row <= dst@.len(),
                src@.len() <= usize::MAX,
                before.len() <= usize::MAX,
                dst@.len() == before.len(),
                forall|i: int|
                    0 <= i < before.len() ==> #[trigger] dst@[i] == if to <= i < to + x {
                        src@[from + (i - to)]
                    } else {
                        copied(src@, before, spec, width, y as int, i)
                    },
            decreases row - x,
        {
            let b: u8 = src[(from + x) as usize];
            dst.set((to + x) as usize, b);
            x += 1;
        }
        assert forall|i: int| 0 <= i < before.len() implies #[trigger] dst@[i] == copied(
            src@,
            before,
            spec,
            width,
            y + 1,
            i,
        ) by {
            if stride > 0 {
                lemma_row_of(i - offset, stride as int, y as int, row as int);
            }
        }
        y += 1;
    }
    assert forall|i: int| 0 <= i < before.len() implies #[trigger] dst@[i] == copied(
        src@,
        before,
        spec,
        width,
        height as int,
        i,
    ) by {}
    Ok(())
}

proof fn lemma_row_fits(y: int, rows: int, len: int)
    requires
        0 <= y < rows,
        0 <= len,
    ensures
        0 <= y * len,
        y * len + len <= len * rows,
{
    assert(y * len + len <= len * rows) by (nonlinear_arith)
        requires
            0 <= y < rows,
            0 <= len,
    ;
    assert(0 <= y * len) by (nonlinear_arith)
        requires
            0 <= y,
            0 <= len,
    ;
}

/// Within the `y`th row of a stride, a position is the row's start and what is over.
proof fn lemma_row_of(rel: int, stride: int, y: int, row: int)
    requires
        stride > 0,
        0 <= y,
        0 <= row <= stride,
    ensures
        y * stride <= rel < y * stride + row ==> rel / stride == y && rel % stride == rel - y
            * stride,
        rel >= 0 && rel / stride == y && rel % stride < row ==> y * stride <= rel < y * stride
            + row && rel % stride == rel - y * stride,
{
    if y * stride <= rel < y * stride + row {
        assert(rel / stride == y && rel % stride == rel - y * stride) by (nonlinear_arith)
            requires
                y * stride <= rel < y * stride + row,
                row <= stride,
                stride > 0,
        ;
    }
    if rel >= 0 && rel / stride == y && rel % stride < row {
        assert(rel == stride * (rel / stride) + rel % stride) by (nonlinear_arith)
            requires
                stride > 0,
        ;
        assert(stride * y == y * stride) by (nonlinear_arith);
    }
}

/// Copy as much of one buffer into another as both have room for.
pub fn copy_prefix(dst: &mut Vec<u8>, src: &[u8])
    ensures
        final(dst)@.len() == old(dst)@.len(),
        forall|i: int|
            0 <= i < old(dst)@.len() ==> #[trigger] final(dst)@[i] == if i < src@.len() {
                src@[i]
            } else {
                old(dst)@[i]
            },
{
    let ghost before = dst@;
    let n: usize = if src.len() < dst.len() {
        src.len()
    } else {
        dst.len()
    };
    let mut i: usize = 0;
    while i < n
        invariant
            i <= n,
            n <= src@.len(),
            n <= dst@.len(),
            dst@.len() == before.len(),
            forall|j: int|
                0 <= j < before.len() ==> #[trigger] dst@[j] == if j < i {
                    src@[j]
                } else {
                    before[j]
                },
        decreases n - i,
    {
        dst.set(i, src[i]);
        i += 1;
    }
}

} // verus!
