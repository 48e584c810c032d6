//! Colour conversion ahead of a session that takes planes: packed rows in, BT.709 limited-range
//! planes out.

use vstd::prelude::*;

verus! {

/// An error of the conversion library.
#[verifier::external_type_specification]
#[verifier::external_body]
pub struct ExYuvError(yuv::YuvError);

/// The bytes that the planes of a frame take: three full planes at 4:4:4; at 4:2:0 one, and one
/// of half the height that interleaves the chroma.
pub open spec fn planes_len(pixels: int, fullcolor: bool) -> int {
    if fullcolor {
        pixels * 3
    } else {
        pixels * 3 / 2
    }
}

/// A frame can be converted: it has pixels, its rows are all there, and at 4:2:0 both its
/// dimensions are even.
pub open spec fn convertible(packed: Seq<u8>, w: u32, h: u32, fullcolor: bool) -> bool {
    &&& w > 0
    &&& h > 0
    &&& packed.len() >= w * h * 4
    &&& !fullcolor ==> w % 2 == 0 && h % 2 == 0
}

/// The planes are ones that `yuv::rgba_to_yuv444` makes of packed RGBA rows, at 4:4:4.
pub uninterp spec fn rgba_444_planes(packed: Seq<u8>, w: u32, h: u32, planes: Seq<u8>) -> bool;

/// `yuv::rgba_to_yuv444` at BT.709, limited range, fast mode, into planes that follow one another
/// in a buffer of just their length: it succeeds exactly on a frame that has pixels and all its
/// rows, and leaves the planes as they were where it does not. Which of its roundings the planes
/// get depends on the instructions the machine offers, so that they are named by what can come
/// out for the rows, not by one value.
#[verifier::external_body]
fn rgba_to_yuv444(planes: &mut Vec<u8>, packed: &[u8], w: u32, h: u32) -> (r: Result<
    (),
    yuv::YuvError,
>)
    requires
        w * 4 <= u32::MAX,
        old(planes)@.len() == planes_len(w * h, true),
    ensures
        final(planes)@.len() == old(planes)@.len(),
        r is Ok <==> convertible(packed@, w, h, true),
        r is Ok ==> rgba_444_planes(packed@, w, h, final(planes)@),
        r is Err ==> final(planes)@ == old(planes)@,
{
    let (y, rest) = planes.split_at_mut(w as usize * h as usize);
    let (u, v) = rest.split_at_mut(w as usize * h as usize);
    let mut image = yuv::YuvPlanarImageMut {
        y_plane: yuv::BufferStoreMut::Borrowed(y), y_stride: w,
        u_plane: yuv::BufferStoreMut::Borrowed(u), u_stride: w,
        v_plane: yuv::BufferStoreMut::Borrowed(v), v_stride: w,
        width: w, height: h,
    };
    yuv::rgba_to_yuv444(&mut image, packed, w * 4, yuv::YuvRange::Limited,
        yuv::YuvStandardMatrix::Bt709, yuv::YuvConversionMode::Fast)
}

/// The planes are ones that `yuv::bgra_to_yuv444` makes of packed BGRA rows, at 4:4:4.
pub uninterp spec fn bgra_444_planes(packed: Seq<u8>, w: u32, h: u32, planes: Seq<u8>) -> bool;

/// `yuv::bgra_to_yuv444`, as `rgba_to_yuv444` with the colours in the other order.
#[verifier::external_body]
fn bgra_to_yuv444(planes: &mut Vec<u8>, packed: &[u8], w: u32, h: u32) -> (r: Result<
    (),
    yuv::YuvError,
>)
    requires
        w * 4 <= u32::MAX,
        old(planes)@.len() == planes_len(w * h, true),
    ensures
        final(planes)@.len() == old(planes)@.len(),
        r is Ok <==> convertible(packed@, w, h, true),
        r is Ok ==> bgra_444_planes(packed@, w, h, final(planes)@),
        r is Err ==> final(planes)@ == old(planes)@,
{
    let (y, rest) = planes.split_at_mut(w as usize * h as usize);
    let (u, v) = rest.split_at_mut(w as usize * h as usize);
    let mut image = yuv::YuvPlanarImageMut {
        y_plane: yuv::BufferStoreMut::Borrowed(y), y_stride: w,
        u_plane: yuv::BufferStoreMut::Borrowed(u), u_stride: w,
        v_plane: yuv::BufferStoreMut::Borrowed(v), v_stride: w,
        width: w, height: h,
    };
    yuv::bgra_to_yuv444(&mut image, packed, w * 4, yuv::YuvRange::Limited,
        yuv::YuvStandardMatrix::Bt709, yuv::YuvConversionMode::Fast)
}

/// The planes are ones that `yuv::rgba_to_yuv_nv12` makes of packed RGBA rows, at 4:2:0.
pub uninterp spec fn rgba_nv12_planes(packed: Seq<u8>, w: u32, h: u32, planes: Seq<u8>) -> bool;

/// `yuv::rgba_to_yuv_nv12` at BT.709, limited range, fast mode, into a luma plane followed by an
/// interleaved chroma plane of half the height, in a buffer of just their length: it succeeds
/// exactly on a frame that has pixels and all its rows and whose dimensions are even, and leaves
/// the planes as they were where it does not. Which of its roundings the planes get depends on the
/// instructions the machine offers, so that they are named by what can come out for the rows, not
/// by one value.
#[verifier::external_body]
fn rgba_to_yuv_nv12(planes: &mut Vec<u8>, packed: &[u8], w: u32, h: u32) -> (r: Result<
    (),
    yuv::YuvError,
>)
    requires
        w * 4 <= u32::MAX,
        old(planes)@.len() == planes_len(w * h, false),
    ensures
        final(planes)@.len() == old(planes)@.len(),
        r is Ok <==> convertible(packed@, w, h, false),
        r is Ok ==> rgba_nv12_planes(packed@, w, h, final(planes)@),
        r is Err ==> final(planes)@ == old(planes)@,
{
    let (y, uv) = planes.split_at_mut(w as usize * h as usize);
    let mut image = yuv::YuvBiPlanarImageMut {
        y_plane: yuv::BufferStoreMut::Borrowed(y), y_stride: w,
        uv_plane: yuv::BufferStoreMut::Borrowed(uv), uv_stride: w,
        width: w, height: h,
    };
    yuv::rgba_to_yuv_nv12(&mut image, packed, w * 4, yuv::YuvRange::Limited,
        yuv::YuvStandardMatrix::Bt709, yuv::YuvConversionMode::Fast)
}

/// The planes are ones that `yuv::bgra_to_yuv_nv12` makes of packed BGRA rows, at 4:2:0.
pub uninterp spec fn bgra_nv12_planes(packed: Seq<u8>, w: u32, h: u32, planes: Seq<u8>) -> bool;

/// `yuv::bgra_to_yuv_nv12`, as `rgba_to_yuv_nv12` with the colours in the other order.
#[verifier::external_body]
fn bgra_to_yuv_nv12(planes: &mut Vec<u8>, packed: &[u8], w: u32, h: u32) -> (r: Result<
    (),
    yuv::YuvError,
>)
    requires
        w * 4 <= u32::MAX,
        old(planes)@.len() == planes_len(w * h, false),
    ensures
        final(planes)@.len() == old(planes)@.len(),
        r is Ok <==> convertible(packed@, w, h, false),
        r is Ok ==> bgra_nv12_planes(packed@, w, h, final(planes)@),
        r is Err ==> final(planes)@ == old(planes)@,
{
    let (y, uv) = planes.split_at_mut(w as usize * h as usize);
    let mut image = yuv::YuvBiPlanarImageMut {
        y_plane: yuv::BufferStoreMut::Borrowed(y), y_stride: w,
        uv_plane: yuv::BufferStoreMut::Borrowed(uv), uv_stride: w,
        width: w, height: h,
    };
    yuv::bgra_to_yuv_nv12(&mut image, packed, w * 4, yuv::YuvRange::Limited,
        yuv::YuvStandardMatrix::Bt709, yuv::YuvConversionMode::Fast)
}

/// The planes hold the frame: in the chroma that the session takes, from rows in the order that
/// they came in.
pub open spec fn converted(
    packed: Seq<u8>,
    w: u32,
    h: u32,
    fullcolor: bool,
    rgba: bool,
    planes: Seq<u8>,
) -> bool {
    if fullcolor {
        if rgba {
            rgba_444_planes(packed, w, h, planes)
        } else {
            bgra_444_planes(packed, w, h, planes)
        }
    } else if rgba {
        rgba_nv12_planes(packed, w, h, planes)
    } else {
        bgra_nv12_planes(packed, w, h, planes)
    }
}

/// Planar conversion target for a readback session: empty where no session consumes it.
pub fn hw_plane_buffer(width: i32, height: i32, fullcolor: bool, planar: bool) -> (v: Vec<u8>)
    requires
        planar ==> 0 <= width * height <= i32::MAX && planes_len(width * height, fullcolor)
            <= usize::MAX,
    ensures
        v@ == Seq::new(
            if planar {
                planes_len(width * height, fullcolor) as nat
            } else {
                0
            },
            |_i: int| 0u8,
        ),
{
    if !planar {
        let v: Vec<u8> = Vec::new();
        assert(v@ =~= Seq::new(0, |_i: int| 0u8));
        return v;
    }
    let n: u64 = (width * height) as u64;
    let len: u64 = if fullcolor {
        n * 3
    } else {
        n * 3 / 2
    };
    let v: Vec<u8> = vec![0u8; len as usize];
    assert(v@ =~= Seq::new(planes_len(width * height, fullcolor) as nat, |_i: int| 0u8));
    v
}

/// Convert a frame's packed rows into the planes a session reads: `rgba` where the rows come from
/// the GPU, the other order where they come from the software framebuffer. A frame that cannot be
/// converted leaves the planes holding the one before.
pub fn convert(
    planes: &mut Vec<u8>,
    packed: &[u8],
    width: i32,
    height: i32,
    fullcolor: bool,
    rgba: bool,
) -> (ok: bool)
    requires
        0 <= width <= 0x3fff_ffff,
        0 <= height,
        old(planes)@.len() == planes_len(width * height, fullcolor),
    ensures
        ok == convertible(packed@, width as u32, height as u32, fullcolor),
        final(planes)@.len() == old(planes)@.len(),
        ok ==> converted(packed@, width as u32, height as u32, fullcolor, rgba, final(planes)@),
        !ok ==> final(planes)@ == old(planes)@,
{
    let w: u32 = width as u32;
    let h: u32 = height as u32;
    let r = if fullcolor {
        if rgba {
            rgba_to_yuv444(planes, packed, w, h)
        } else {
            bgra_to_yuv444(planes, packed, w, h)
        }
    } else if rgba {
        rgba_to_yuv_nv12(planes, packed, w, h)
    } else {
        bgra_to_yuv_nv12(planes, packed, w, h)
    };
    match r {
        Ok(_) => true,
        Err(_) => false,
    }
}

} // verus!
