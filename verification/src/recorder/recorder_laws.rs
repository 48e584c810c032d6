//! What a recording is: its parameter sets read as the standard writes them, its samples timed as
//! they came, and its start, its frames and its end as they were asked for.

use vstd::prelude::*;
use vstd::arithmetic::power2::pow2;
use crate::encoders::{Codec, EncodedStripe};
use crate::settings::RustCaptureSettings;
use super::annexb;
use super::control;
use super::control::{
    Offer, PreferredBackend, RecordOptions, RecordingMode, Teardown,
};
use super::mp4;
use super::mp4::{MuxView, SampleView};
use super::muxer;
use super::muxer::MuxerView;
use super::ogg;
use super::ogg::OpusHead;
use super::sps;
use super::sps::{Cursor, SpsSize};

verus! {

/// What the bits of a byte count, the first one most.
pub open spec fn bit_weight(i: int) -> int {
    if i == 0 {
        128
    } else if i == 1 {
        64
    } else if i == 2 {
        32
    } else if i == 3 {
        16
    } else if i == 4 {
        8
    } else if i == 5 {
        4
    } else if i == 6 {
        2
    } else {
        1
    }
}

/// The bits of a byte string are those of its bytes, each one's most significant first.
pub proof fn bits_are_the_bytes(data: Seq<u8>, i: int)
    requires
        0 <= i < 8 * data.len(),
    ensures
        sps::bit_at(data, i) == data[i / 8] as int / bit_weight(i % 8) % 2,
        sps::bit_at(data, i) == 0 || sps::bit_at(data, i) == 1,
{
    let b = data[i / 8];
    let k = i % 8;
    assert((b >> 7u8) & 1 == b / 128 % 2 && (b >> 6u8) & 1 == b / 64 % 2 && (b >> 5u8) & 1 == b / 32
        % 2 && (b >> 4u8) & 1 == b / 16 % 2 && (b >> 3u8) & 1 == b / 8 % 2 && (b >> 2u8) & 1 == b / 4
        % 2 && (b >> 1u8) & 1 == b / 2 % 2 && (b >> 0u8) & 1 == b / 1 % 2) by (bit_vector);
    if k == 0 {
    } else if k == 1 {
    } else if k == 2 {
    } else if k == 3 {
    } else if k == 4 {
    } else if k == 5 {
    } else if k == 6 {
    } else {
        assert(k == 7);
    }
}

/// The number that `n` bits write, the first one counting most.
pub open spec fn written(data: Seq<u8>, pos: int, n: nat) -> int
    decreases n,
{
    if n == 0 {
        0
    } else {
        2 * written(data, pos, (n - 1) as nat) + sps::bit_at(data, pos + n - 1)
    }
}

proof fn values_are_written(data: Seq<u8>, pos: int, n: nat)
    ensures
        sps::bits_value(data, pos, n) == written(data, pos, n),
    decreases n,
{
    if n > 0 {
        values_are_written(data, pos, (n - 1) as nat);
    }
}

/// An unsigned Exp-Golomb code stands at `pos` and ends ahead of `next`: `z` zero bits, and then
/// in `z + 1` bits, of which the first is a one, the value plus one.
#[verifier::opaque]
pub open spec fn coded(data: Seq<u8>, pos: int, z: nat, v: nat, next: int) -> bool {
    &&& 0 <= pos && z <= 31
    &&& next == pos + 2 * z + 1
    &&& next <= 8 * data.len()
    &&& forall|i: int| pos <= i < pos + z ==> #[trigger] sps::bit_at(data, i) == 0
    &&& sps::bit_at(data, pos + z) == 1
    &&& written(data, pos + z, z + 1) == v + 1
}

proof fn runs_are_counted(data: Seq<u8>, pos: int, z: nat, from: nat)
    requires
        from <= z <= 31,
        0 <= pos,
        pos + z < 8 * data.len(),
        forall|i: int| pos <= i < pos + z ==> #[trigger] sps::bit_at(data, i) == 0,
        sps::bit_at(data, pos + z) == 1,
    ensures
        sps::zero_run(data, pos, from) == Some(z),
    decreases z - from,
{
    if from < z {
        assert(sps::bit_at(data, pos + from) == 0);
        runs_are_counted(data, pos, z, from + 1);
    }
}

proof fn leading_one(data: Seq<u8>, pos: int, n: nat)
    requires
        sps::bit_at(data, pos) == 1,
    ensures
        written(data, pos, n + 1) == pow2(n) + written(data, pos + 1, n),
    decreases n,
{
    vstd::arithmetic::power2::lemma2_to64();
    reveal_with_fuel(written, 2);
    if n > 0 {
        leading_one(data, pos, (n - 1) as nat);
        vstd::arithmetic::power2::lemma_pow2_unfold(n);
        assert(pos + 1 + n - 1 == pos + (n + 1) - 1);
    }
}

/// An Exp-Golomb code reads back as the value it writes, and the next field begins behind it.
pub proof fn codes_read_back(data: Seq<u8>, pos: int, z: nat, v: nat, next: int)
    requires
        coded(data, pos, z, v, next),
    ensures
        sps::ue_at(data, pos) == Some((v, next)),
        sps::past_ue(data, Cursor::At(pos)) == Cursor::At(next),
        sps::ue_value(data, Cursor::At(pos)) == v,
        0 <= pos < next <= 8 * data.len(),
{
    reveal(coded);
    runs_are_counted(data, pos, z, 0);
    leading_one(data, pos + z, z);
    values_are_written(data, pos + z + 1, z);
}

/// A signed code counts 0, 1, -1, 2, -2 and so on.
pub proof fn signed_codes_alternate(k: nat)
    ensures
        sps::signed_of(2 * k) == -k,
        sps::signed_of(2 * k + 1) == k + 1,
{
    assert((2 * k) % 2 == 0);
    assert((2 * k + 1) % 2 == 1);
}

/// The fields of a parameter set from the reference-frame count on: where each stands, and what it
/// says. `frames` is the frames-only flag, `crop` whether the picture is cropped.
pub struct Fields {
    pub refs: nat,
    pub width: nat,
    pub height: nat,
    pub frames: nat,
    pub crop: bool,
    pub left: nat,
    pub right: nat,
    pub top: nat,
    pub bottom: nat,
}

/// Where the fields stand, one behind another, with the length of each code's run.
pub struct Places {
    pub at: int,
    pub z: Seq<nat>,
    pub p: Seq<int>,
}

/// The fields stand in the data as the standard lays them out: the reference count, a flag, the
/// width and the height in macroblocks less one, the frames-only flag, a flag for fields where it is
/// clear, a flag, the cropping flag, and where it is set the four offsets.
pub open spec fn laid(data: Seq<u8>, f: Fields, w: Places) -> bool {
    let after = w.p[2] + (if f.frames == 1 {
        2int
    } else {
        3
    });
    &&& w.z.len() == 7 && w.p.len() == 7
    &&& coded(data, w.at, w.z[0], f.refs, w.p[0])
    &&& coded(data, w.p[0] + 1, w.z[1], f.width, w.p[1])
    &&& coded(data, w.p[1], w.z[2], f.height, w.p[2])
    &&& sps::bit_at(data, w.p[2]) == f.frames
    &&& f.frames <= 1
    &&& after < 8 * data.len()
    &&& sps::bit_at(data, after) == if f.crop {
        1nat
    } else {
        0
    }
    &&& f.crop ==> {
        &&& coded(data, after + 1, w.z[3], f.left, w.p[3])
        &&& coded(data, w.p[3], w.z[4], f.right, w.p[4])
        &&& coded(data, w.p[4], w.z[5], f.top, w.p[5])
        &&& coded(data, w.p[5], w.z[6], f.bottom, w.p[6])
    }
}

/// A picture is its macroblocks of sixteen pixels a side, twice as high where its height counts
/// fields, less what is cropped: in units of one pixel without chroma and at 4:4:4, else of two
/// across, and of two down at 4:2:0, and twice that of fields.
#[verifier::spinoff_prover]
#[verifier::rlimit(60)]
pub proof fn pictures_are_their_macroblocks(data: Seq<u8>, f: Fields, w: Places, idc: nat)
    requires
        laid(data, f, w),
        idc <= 3,
        f.width <= 0xff_ffff && f.height <= 0x7f_ffff,
        f.left + f.right <= 0xffff && f.top + f.bottom <= 0xffff,
    ensures
        ({
            let ux: int = if idc == 1 || idc == 2 {
                2
            } else {
                1
            };
            let uy: int = if idc == 1 {
                2
            } else {
                1
            };
            let rows: int = if f.frames == 1 {
                1
            } else {
                2
            };
            let (l, r, t, b) = if f.crop {
                (f.left, f.right, f.top, f.bottom)
            } else {
                (0nat, 0nat, 0nat, 0nat)
            };
            let width = 16 * (f.width + 1) - ux * (l + r);
            let height = rows * (16 * (f.height + 1)) - rows * (uy * (t + b));
            width >= 0 && height >= 0 ==> sps::size_from(data, Cursor::At(w.at), idc)
                == SpsSize::Pixels(width as u32, height as u32)
        }),
{
    codes_read_back(data, w.at, w.z[0], f.refs, w.p[0]);
    codes_read_back(data, w.p[0] + 1, w.z[1], f.width, w.p[1]);
    codes_read_back(data, w.p[1], w.z[2], f.height, w.p[2]);
    let c = Cursor::At(w.at);
    let at_width = sps::past_bit(data, sps::past_ue(data, c));
    assert(at_width == Cursor::At(w.p[0] + 1));
    assert(sps::past_ue(data, at_width) == Cursor::At(w.p[1]));
    let at_frames = Cursor::At(w.p[2]);
    assert(sps::past_ue(data, Cursor::At(w.p[1])) == at_frames);
    assert(sps::flag_value(data, at_frames) == f.frames);
    let after = w.p[2] + (if f.frames == 1 {
        2int
    } else {
        3
    });
    let c1 = sps::past_bit(data, at_frames);
    assert(c1 == Cursor::At(w.p[2] + 1));
    let c2 = if f.frames == 0 {
        sps::past_bit(data, c1)
    } else {
        c1
    };
    let at_crop = sps::past_bit(data, c2);
    assert(at_crop == Cursor::At(after));
    assert(sps::past_bit(data, at_crop) == Cursor::At(after + 1));
    assert((sps::flag_value(data, at_crop) == 1) == f.crop);
    if f.crop {
        codes_read_back(data, after + 1, w.z[3], f.left, w.p[3]);
        codes_read_back(data, w.p[3], w.z[4], f.right, w.p[4]);
        codes_read_back(data, w.p[4], w.z[5], f.top, w.p[5]);
        codes_read_back(data, w.p[5], w.z[6], f.bottom, w.p[6]);
    }
    let (l, r, t, b) = if f.crop {
        (f.left, f.right, f.top, f.bottom)
    } else {
        (0nat, 0nat, 0nat, 0nat)
    };
    across_is_cropped(f.width, idc, l, r);
    down_is_cropped(f.height, f.frames, idc, t, b);
}

proof fn across_is_cropped(width: nat, idc: nat, l: nat, r: nat)
    requires
        idc <= 3,
        width <= 0xff_ffff,
        l + r <= 0xffff,
    ensures
        ({
            let ux: int = if idc == 1 || idc == 2 {
                2
            } else {
                1
            };
            let pixels = 16 * (width + 1) - ux * (l + r);
            pixels >= 0 ==> sps::cropped((width + 1) as int, sps::crop_unit_x(idc), l, r) == Some(
                pixels as u32,
            )
        }),
{
}

proof fn down_is_cropped(height: nat, frames: nat, idc: nat, t: nat, b: nat)
    requires
        idc <= 3,
        frames <= 1,
        height <= 0x7f_ffff,
        t + b <= 0xffff,
    ensures
        ({
            let uy: int = if idc == 1 {
                2
            } else {
                1
            };
            let rows: int = if frames == 1 {
                1
            } else {
                2
            };
            let pixels = rows * (16 * (height + 1)) - rows * (uy * (t + b));
            let fields = 2 - frames;
            pixels >= 0 ==> sps::cropped(
                fields * (height + 1),
                sps::crop_unit_y(idc) * fields,
                t,
                b,
            ) == Some(pixels as u32)
        }),
{
    let fields = 2 - frames;
    if frames == 1 {
        assert(fields == 1);
        assert(fields * (height + 1) == height + 1);
        assert(sps::crop_unit_y(idc) * fields == sps::crop_unit_y(idc));
    } else {
        assert(fields == 2);
        assert(fields * (height + 1) == 2 * (height + 1));
        assert(sps::crop_unit_y(idc) * fields == 2 * sps::crop_unit_y(idc));
    }
}

/// A parameter set of a profile without chroma information, whose picture order is of the first
/// kind, reads as its fields: its number, the length of frame numbers, the order's kind and length,
/// and the fields of the picture.
#[verifier::spinoff_prover]
#[verifier::rlimit(60)]
pub proof fn parameter_sets_read_back(
    set: Seq<u8>,
    id: nat,
    frame_bits: nat,
    order_bits: nat,
    z: Seq<nat>,
    p: Seq<int>,
    f: Fields,
    w: Places,
)
    requires
        set.len() >= 4,
        set[0] % 32 == 7,
        set[1] == 66 || set[1] == 77 || set[1] == 88,
        z.len() == 4 && p.len() == 4,
        ({
            let data = sps::unescaped(set.subrange(4, set.len() as int));
            &&& coded(data, 0, z[0], id, p[0])
            &&& coded(data, p[0], z[1], frame_bits, p[1])
            &&& coded(data, p[1], z[2], 0, p[2])
            &&& coded(data, p[2], z[3], order_bits, p[3])
            &&& laid(data, f, w)
        }),
        w.at == p[3],
        f.width <= 0xff_ffff && f.height <= 0x7f_ffff,
        f.left + f.right <= 0xffff && f.top + f.bottom <= 0xffff,
        f.frames == 1,
        f.crop,
        2 * (f.left + f.right) <= 16 * (f.width + 1),
        2 * (f.top + f.bottom) <= 16 * (f.height + 1),
    ensures
        sps::sps_size(set) == SpsSize::Pixels(
            (16 * (f.width + 1) - 2 * (f.left + f.right)) as u32,
            (16 * (f.height + 1) - 2 * (f.top + f.bottom)) as u32,
        ),
{
    let data = sps::unescaped(set.subrange(4, set.len() as int));
    codes_read_back(data, 0, z[0], id, p[0]);
    codes_read_back(data, p[0], z[1], frame_bits, p[1]);
    codes_read_back(data, p[1], z[2], 0, p[2]);
    codes_read_back(data, p[2], z[3], order_bits, p[3]);
    assert(sps::past_picture_order(data, Cursor::At(p[1])) == Cursor::At(p[3]));
    pictures_are_their_macroblocks(data, f, w, 1);
}

/// A parameter set of the high profile, 4:2:0 without a scaling matrix, reads as its fields: behind
/// its number the chroma format, both bit depths and two flags.
#[verifier::spinoff_prover]
#[verifier::rlimit(60)]
pub proof fn high_parameter_sets_read_back(
    set: Seq<u8>,
    idc: nat,
    v: Seq<nat>,
    z: Seq<nat>,
    p: Seq<int>,
    f: Fields,
    w: Places,
)
    requires
        set.len() >= 4,
        set[0] % 32 == 7,
        set[1] == 100 || set[1] == 110 || set[1] == 122 || set[1] == 244 || set[1] == 44 || set[1]
            == 83 || set[1] == 86 || set[1] == 118 || set[1] == 128 || set[1] == 138 || set[1] == 139
            || set[1] == 134 || set[1] == 135,
        v.len() == 7 && z.len() == 7 && p.len() == 7,
        idc <= 2,
        ({
            let data = sps::unescaped(set.subrange(4, set.len() as int));
            &&& coded(data, 0, z[0], v[0], p[0])
            &&& coded(data, p[0], z[1], idc, p[1])
            &&& coded(data, p[1], z[2], v[2], p[2])
            &&& coded(data, p[2], z[3], v[3], p[3])
            &&& p[3] + 1 < 8 * data.len()
            &&& sps::bit_at(data, p[3] + 1) == 0
            &&& coded(data, p[3] + 2, z[4], v[4], p[4])
            &&& coded(data, p[4], z[5], 0, p[5])
            &&& coded(data, p[5], z[6], v[6], p[6])
            &&& laid(data, f, w)
        }),
        w.at == p[6],
        f.width <= 0xff_ffff && f.height <= 0x7f_ffff,
        f.left + f.right <= 0xffff && f.top + f.bottom <= 0xffff,
        f.frames == 1,
        !f.crop,
    ensures
        sps::sps_size(set) == SpsSize::Pixels(
            (16 * (f.width + 1)) as u32,
            (16 * (f.height + 1)) as u32,
        ),
{
    let data = sps::unescaped(set.subrange(4, set.len() as int));
    codes_read_back(data, 0, z[0], v[0], p[0]);
    codes_read_back(data, p[0], z[1], idc, p[1]);
    codes_read_back(data, p[1], z[2], v[2], p[2]);
    codes_read_back(data, p[2], z[3], v[3], p[3]);
    codes_read_back(data, p[3] + 2, z[4], v[4], p[4]);
    codes_read_back(data, p[4], z[5], 0, p[5]);
    codes_read_back(data, p[5], z[6], v[6], p[6]);
    assert(sps::past_chroma_info(data, Cursor::At(p[0])) == Cursor::At(p[3] + 2));
    assert(sps::past_picture_order(data, Cursor::At(p[4])) == Cursor::At(p[6]));
    pictures_are_their_macroblocks(data, f, w, idc);
}

/// What is no parameter set gives no size.
pub proof fn other_units_give_no_size(set: Seq<u8>)
    requires
        set.len() < 4 || set[0] % 32 != 7,
    ensures
        sps::sps_size(set) == SpsSize::Malformed,
{
}

/// Unescaping drops exactly the threes behind two zeros: a byte before one is the same byte, and
/// every other byte stays, in order.
pub proof fn escapes_are_dropped(data: Seq<u8>, n: nat)
    requires
        n < data.len(),
    ensures
        ({
            let before = sps::unescaped_prefix(data, n);
            let after = sps::unescaped_prefix(data, n + 1);
            let escape = n >= 2 && data[n as int] == 3 && data[n - 1] == 0 && data[n - 2] == 0;
            &&& escape ==> after == before
            &&& !escape ==> after == before.push(data[n as int])
        }),
{
}

/// An Opus packet's samples: as many frames as its code says, each of the time its configuration
/// gives, at 48 samples a millisecond.
pub proof fn opus_packets_last_their_frames(packet: Seq<u8>)
    requires
        packet.len() > 0,
    ensures
        ({
            let config = packet[0] as int / 8;
            let code = packet[0] as int % 4;
            let frames: int = if code == 0 {
                1
            } else if code == 1 || code == 2 {
                2
            } else if packet.len() >= 2 {
                packet[1] as int % 64
            } else {
                0
            };
            let each: int = if config >= 16 {
                if config % 4 == 0 {
                    120
                } else if config % 4 == 1 {
                    240
                } else if config % 4 == 2 {
                    480
                } else {
                    960
                }
            } else if config >= 12 {
                if config % 2 == 0 {
                    480
                } else {
                    960
                }
            } else if config % 4 == 0 {
                480
            } else if config % 4 == 1 {
                960
            } else if config % 4 == 2 {
                1920
            } else {
                2880
            };
            mp4::opus_samples(packet) == frames * each
        }),
        mp4::opus_samples(seq![]) == 0,
{
    let tenths = mp4::opus_frame_tenths(packet[0] / 8) as int;
    let n = mp4::opus_frame_count(packet) as int;
    assert(n * tenths * 48 / 10 == n * (tenths * 48 / 10)) by {
        let each = tenths * 48 / 10;
        assert(tenths * 48 == 10 * each);
        assert(n * tenths * 48 == 10 * (n * each)) by (nonlinear_arith)
            requires
                tenths * 48 == 10 * each,
        ;
    }
}

/// A timestamp is carried to the tick of the 90 kHz clock it falls in, unless that would not be
/// past the last one: then it is the tick after that.
pub proof fn times_fall_in_their_tick(pts_us: u64, last: Option<u64>)
    requires
        pts_us <= u64::MAX / 90,
        last matches Some(l) ==> l < u64::MAX,
    ensures
        ({
            let t = mp4::decode_time(pts_us, last);
            let fits = 1000 * t <= 90 * pts_us < 1000 * t + 1000;
            &&& last is None ==> fits
            &&& last matches Some(l) ==> t > l
            &&& last matches Some(l) ==> fits || t == l + 1
            &&& last matches Some(l) ==> 90 * pts_us >= 1000 * l + 1000 ==> fits
        }),
{
}

/// A sample lasts until its successor, as far as 32 bits tell; the last one a thirtieth of a second
/// where no other told.
pub proof fn samples_last_until_the_next(dts: u64, next: u64)
    requires
        dts <= next,
    ensures
        next - dts <= u32::MAX ==> dts + mp4::duration_between(dts, next) == next,
        next - dts > u32::MAX ==> mp4::duration_between(dts, next) == u32::MAX,
        mp4::median(seq![]) == 3000,
{
}

/// A sample that arrives is held back with its bytes and its flag, and the one held before it is
/// written, as long as the time between the two.
pub proof fn samples_are_written_behind_one_another(
    v: MuxView,
    prev: SampleView,
    data: Seq<u8>,
    sync: bool,
    pts_us: u64,
)
    requires
        v.pending == Some(prev),
        v.wf(),
        v.timeable(pts_us),
        v.seq < u32::MAX,
        v.stats.samples < u64::MAX,
    ensures
        ({
            let w = v.with_sample(data, sync, pts_us);
            &&& w.pending matches Some(s) && s.data == data && s.sync == sync
            &&& w.seq == v.seq + 1
            &&& w.stats.samples == v.stats.samples + 1
            &&& w.out.len() == v.out.len() + mp4::video_fragment(
                w.seq,
                prev,
                mp4::duration_between(prev.dts, w.pending->0.dts),
            ).len()
            &&& w.out.take(v.out.len() as int) == v.out
            &&& w.out.skip(v.out.len() as int) == mp4::video_fragment(
                w.seq,
                prev,
                mp4::duration_between(prev.dts, w.pending->0.dts),
            )
        }),
{
    let w = v.with_sample(data, sync, pts_us);
    let f = mp4::video_fragment(
        w.seq,
        prev,
        mp4::duration_between(prev.dts, w.pending->0.dts),
    );
    assert(w.out == v.out + f);
    assert(w.out.take(v.out.len() as int) =~= v.out);
    assert(w.out.skip(v.out.len() as int) =~= f);
}

/// A unit's type is the low five bits of its first byte: one is a slice, five a refresh, seven and
/// eight the parameter sets. Of each parameter set the last that came is held, and the one from
/// before where none came.
pub proof fn the_last_parameter_set_is_held(
    nals: Seq<Seq<u8>>,
    t: u8,
    held: Option<Seq<u8>>,
    k: int,
)
    requires
        0 <= k < nals.len(),
    ensures
        nals[k][0] as int % 32 == t && (forall|i: int|
            k < i < nals.len() ==> (#[trigger] nals[i])[0] as int % 32 != t) ==> mp4::last_of_type(
            nals,
            t,
            held,
        ) == Some(nals[k]),
        (forall|i: int| 0 <= i < nals.len() ==> (#[trigger] nals[i])[0] as int % 32 != t)
            ==> mp4::last_of_type(nals, t, held) == held,
        nals[k][0] as int % 32 == t ==> mp4::has_type(nals, t),
        (forall|i: int| 0 <= i < nals.len() ==> (#[trigger] nals[i])[0] as int % 32 != t)
            ==> !mp4::has_type(nals, t),
        mp4::NAL_SLICE == 1 && mp4::NAL_IDR == 5 && mp4::NAL_SPS == 7 && mp4::NAL_PPS == 8,
{
    if nals[k][0] as int % 32 == t && (forall|i: int|
        k < i < nals.len() ==> (#[trigger] nals[i])[0] as int % 32 != t) {
        last_found(nals, t, held, k);
    }
    if forall|i: int| 0 <= i < nals.len() ==> (#[trigger] nals[i])[0] as int % 32 != t {
        none_found(nals, t, held);
        assert(!mp4::has_type(nals, t)) by {
            if mp4::has_type(nals, t) {
                let i = choose|i: int|
                    0 <= i < nals.len() && #[trigger] mp4::nal_type(nals[i]) == t;
                assert(nals[i][0] as int % 32 != t);
            }
        }
    }
    if nals[k][0] as int % 32 == t {
        assert(mp4::nal_type(nals[k]) == t);
    }
}

proof fn last_found(nals: Seq<Seq<u8>>, t: u8, held: Option<Seq<u8>>, k: int)
    requires
        0 <= k < nals.len(),
        nals[k][0] as int % 32 == t,
        forall|i: int| k < i < nals.len() ==> (#[trigger] nals[i])[0] as int % 32 != t,
    ensures
        mp4::last_of_type(nals, t, held) == Some(nals[k]),
    decreases nals.len(),
{
    if k < nals.len() - 1 {
        let fewer = nals.drop_last();
        assert(nals[nals.len() - 1][0] as int % 32 != t);
        assert forall|i: int| k < i < fewer.len() implies (#[trigger] fewer[i])[0] as int % 32
            != t by {
            assert(nals[i][0] as int % 32 != t);
        }
        last_found(fewer, t, held, k);
    }
}

proof fn none_found(nals: Seq<Seq<u8>>, t: u8, held: Option<Seq<u8>>)
    requires
        forall|i: int| 0 <= i < nals.len() ==> (#[trigger] nals[i])[0] as int % 32 != t,
    ensures
        mp4::last_of_type(nals, t, held) == held,
    decreases nals.len(),
{
    if nals.len() > 0 {
        let fewer = nals.drop_last();
        assert(nals[nals.len() - 1][0] as int % 32 != t);
        assert forall|i: int| 0 <= i < fewer.len() implies (#[trigger] fewer[i])[0] as int % 32
            != t by {
            assert(nals[i][0] as int % 32 != t);
        }
        none_found(fewer, t, held);
    }
}

/// A file takes every frame with a picture once it has started, and starts with the first refresh
/// that both parameter sets are there for; what it takes is the frame's own units, marked a sync
/// sample exactly where one is a refresh.
pub proof fn files_take_what_they_can_show(m: MuxerView, frame: Seq<u8>, pts_us: u64)
    ensures
        ({
            let nals = annexb::annexb_nals(frame);
            let picture = mp4::has_type(nals, 5) || mp4::has_type(nals, 1);
            let sets = m.harvested(frame);
            &&& m.file.init ==> (m.skips(frame) <==> !picture)
            &&& !m.file.init ==> (m.skips(frame) <==> !mp4::has_type(nals, 5) || sets.sps is None
                || sets.pps is None)
            &&& sets.sps == mp4::last_of_type(nals, 7, m.sets.sps)
            &&& sets.pps == mp4::last_of_type(nals, 8, m.sets.pps)
            &&& sets.seen_idr <==> m.sets.seen_idr || mp4::has_type(nals, 5)
            &&& m.grown(frame, pts_us).pending matches Some(s) && s.data == mp4::avcc_sample(nals)
                && (s.sync <==> mp4::has_type(nals, 5))
            &&& m.file.init ==> m.begun(frame) == m.file
        }),
{
}

/// A recording's own settings keep what was given: full frames, at the options' rate and bitrate
/// where they give one, with keyframes at the interval of the settings, else of the options, else
/// every two seconds; and nothing else changes.
pub proof fn recordings_keep_their_settings(s: RustCaptureSettings, o: RecordOptions)
    ensures
        ({
            let r = control::recordable(s, o);
            &&& r.video_fullframe
            &&& r.target_fps_milli == if o.fps_milli > 0 {
                o.fps_milli
            } else {
                s.target_fps_milli
            }
            &&& r.video_bitrate_kbps == if o.bitrate_kbps > 0 {
                o.bitrate_kbps
            } else {
                s.video_bitrate_kbps
            }
            &&& s.keyframe_interval_ms > 0 ==> r.keyframe_interval_ms == s.keyframe_interval_ms
            &&& s.keyframe_interval_ms <= 0 && o.keyframe_interval_ms > 0 ==> r.keyframe_interval_ms
                == o.keyframe_interval_ms
            &&& s.keyframe_interval_ms <= 0 && o.keyframe_interval_ms <= 0 ==> r.keyframe_interval_ms
                == 2000
            &&& r == (RustCaptureSettings {
                video_fullframe: r.video_fullframe,
                target_fps_milli: r.target_fps_milli,
                video_bitrate_kbps: r.video_bitrate_kbps,
                keyframe_interval_ms: r.keyframe_interval_ms,
                ..s
            })
        }),
        ({
            let d = control::derived(s, o);
            &&& d.width == 0 && d.height == 0 && d.output_mode == 1 && d.capture_cursor
            &&& o.fps_milli > 0 ==> d.target_fps_milli == o.fps_milli
            &&& o.fps_milli == 0 ==> d.target_fps_milli == 30_000
            &&& d.video_crf == s.video_crf && d.encode_node_index == s.encode_node_index
        }),
{
}

/// A delivery is recorded exactly where it is one stripe of H.264 over the full height with
/// something past its header, and from there on; nothing is counted against a delivery of nothing.
pub proof fn only_whole_h264_is_recorded(stripes: Seq<EncodedStripe>, h: i32)
    ensures
        stripes.len() == 0 ==> control::offer_of(stripes, h) == Offer::Nothing,
        stripes.len() > 1 ==> control::offer_of(stripes, h) == Offer::Skipped,
        stripes.len() == 1 ==> {
            let s = stripes[0];
            let whole = s.data_type == 2 && s.codec == Codec::H264 && s.stripe_y_start == 0
                && s.stripe_height == h;
            let header: nat = if s.data@.len() >= 10 && s.data@[0] == 4 {
                10
            } else {
                0
            };
            &&& !whole <==> control::offer_of(stripes, h) == Offer::Skipped
            &&& whole && s.data@.len() > header ==> control::offer_of(stripes, h) == Offer::Frame(
                header as usize,
            )
            &&& whole && s.data@.len() == header ==> control::offer_of(stripes, h) == Offer::Nothing
        },
{
}

/// A keyframe is asked for once the interval has passed since the last, and never without one.
pub proof fn keyframes_are_asked_for_in_time(interval: u64, last: u64, now: u64)
    ensures
        interval == 0 ==> !control::idr_due(interval, last, now),
        interval > 0 && now - last >= interval ==> control::idr_due(interval, last, now),
        now - last < interval ==> !control::idr_due(interval, last, now),
{
}

/// A recording starts unless another runs, it has no path, its settings are not H.264, or what it
/// is to be captured from is not there; it is captured from what was asked, else from the
/// compositor where it runs, else from X11.
pub proof fn recordings_start_unless_something_is_amiss(
    active: bool,
    o: RecordOptions,
    wayland: bool,
    x11: bool,
)
    ensures
        control::start_refusal(active, o, wayland, x11) is None <==> {
            &&& !active
            &&& o.path@.len() > 0
            &&& o.capture matches Some(c) ==> c.output_mode == 1
            &&& o.backend == Some(PreferredBackend::Wayland) ==> wayland
            &&& o.backend is None ==> wayland || x11
        },
        o.backend matches Some(b) ==> control::chosen_backend(o, wayland) == b,
        o.backend is None ==> (control::chosen_backend(o, wayland) == PreferredBackend::Wayland
            <==> wayland),
        control::backend_up(None, wayland, x11) <==> wayland || x11,
        control::backend_up(Some(PreferredBackend::X11), wayland, x11) <==> x11,
        control::backend_up(Some(PreferredBackend::Wayland), wayland, x11) <==> wayland,
{
}

/// A recording that ends takes down its own capture and no other's.
pub proof fn recordings_take_down_their_own(mode: RecordingMode, owners: Map<u32, u64>)
    ensures
        mode is X11Own <==> control::teardown_of(mode, owners) is X11,
        mode is WaylandAttached ==> control::teardown_of(mode, owners) is Nothing,
        mode matches RecordingMode::WaylandOwn { display_id } ==> {
            &&& owners.dom().contains(display_id) ==> control::teardown_of(mode, owners) is Nothing
            &&& !owners.dom().contains(display_id) ==> control::teardown_of(mode, owners)
                == Teardown::Wayland(display_id)
        },
{
}

/// An output is found by its number: the first that has it, and none only where none has it.
pub proof fn outputs_are_found_by_number(
    outputs: Seq<crate::command::OutputDesc>,
    id: u32,
    from: int,
)
    requires
        0 <= from <= outputs.len(),
    ensures
        match control::output_from(outputs, id, from) {
            Some(i) => from <= i < outputs.len() && outputs[i].id == id && forall|j: int|
                from <= j < i ==> (#[trigger] outputs[j]).id != id,
            None => forall|j: int| from <= j < outputs.len() ==> (#[trigger] outputs[j]).id != id,
        },
    decreases outputs.len() - from,
{
    if from < outputs.len() && outputs[from].id != id {
        outputs_are_found_by_number(outputs, id, from + 1);
    }
}

/// An Opus head reads as its bytes: behind the magic and the version the channels, and then, least
/// significant byte first, the pre-skip, the rate and the gain; the family; and of any family but
/// the first the two counts and a byte a channel.
pub proof fn heads_read_back(h: OpusHead, packet: Seq<u8>)
    requires
        ogg::is_opus_head(packet),
        ogg::head_of(h, packet),
    ensures
        packet.len() >= 19,
        packet[0] == 0x4f && packet[1] == 0x70 && packet[2] == 0x75 && packet[3] == 0x73 && packet[4]
            == 0x48 && packet[5] == 0x65 && packet[6] == 0x61 && packet[7] == 0x64,
        h.channels == packet[9],
        h.pre_skip == packet[10] + packet[11] * 0x100,
        h.input_sample_rate == packet[12] + packet[13] * 0x100 + packet[14] * 0x1_0000 + packet[15]
            * 0x100_0000,
        h.mapping_family == packet[18],
        packet[18] == 0 ==> h.mapping@.len() == 0,
        packet[18] != 0 ==> h.mapping@.len() == 2 + h.channels && packet.len() >= 21 + h.channels,
        forall|i: int| 0 <= i < h.mapping@.len() ==> #[trigger] h.mapping@[i] == packet[19 + i],
{
    let m = packet.subrange(0, 8);
    assert(m[0] == packet[0] && m[1] == packet[1] && m[2] == packet[2] && m[3] == packet[3] && m[4]
        == packet[4] && m[5] == packet[5] && m[6] == packet[6] && m[7] == packet[7]);
}

/// A page is told from its front: its magic, its granule in eight bytes least significant first, as
/// many lacing values as it says, and a body of their sum.
pub proof fn pages_are_told_from_their_front(s: Seq<u8>)
    ensures
        s.len() < 27 ==> ogg::front(s) is Short,
        s.len() >= 27 ==> (ogg::front(s) is NotOgg <==> !(s[0] == 0x4f && s[1] == 0x67 && s[2] == 0x67
            && s[3] == 0x53)),
        ogg::front(s) matches ogg::Front::Page { len, granule, lacing, body } ==> {
            &&& lacing.len() == s[26]
            &&& forall|i: int| 0 <= i < lacing.len() ==> #[trigger] lacing[i] == s[27 + i]
            &&& len == 27 + s[26] + body.len()
            &&& len <= s.len()
            &&& forall|i: int| 0 <= i < body.len() ==> #[trigger] body[i] == s[27 + s[26] + i]
            &&& granule == s[6] + s[7] * 0x100 + s[8] * 0x1_0000 + s[9] * 0x100_0000 + (s[10] + s[11]
                * 0x100 + s[12] * 0x1_0000 + s[13] * 0x100_0000) * 0x1_0000_0000
        },
{
}

/// The granule of a page stands with the last packet it completes, and with no other.
pub proof fn granules_stand_with_the_last_packet(packets: Seq<Seq<u8>>, granule: u64, i: int)
    requires
        0 <= i < packets.len(),
    ensures
        ogg::tagged(packets, granule).len() == packets.len(),
        ogg::tagged(packets, granule)[i].0 == packets[i],
        i + 1 == packets.len() ==> ogg::tagged(packets, granule)[i].1 == Some(granule),
        i + 1 < packets.len() ==> ogg::tagged(packets, granule)[i].1 is None,
{
}

/// Audio packets that follow one another are written together, twenty-five at a time; one that does
/// not follow has those before it written first. Each lasts as its bytes say, and the next is
/// expected where it ends. Without an audio track nothing is taken.
pub proof fn audio_is_written_in_runs(v: MuxView, data: Seq<u8>, dts: u64)
    requires
        v.wf(),
        v.seq < u32::MAX - 1,
        dts + mp4::opus_samples(data) <= u64::MAX,
        mp4::opus_samples(data) <= u32::MAX,
    ensures
        ({
            let w = v.with_packet(data, dts);
            let n = v.audio_pending.len();
            let packet = (data, mp4::opus_samples(data) as u32);
            let follows = n == 0 || dts == v.audio_next_dts;
            &&& v.audio is None ==> w == v
            &&& v.audio is Some ==> w.audio_next_dts == dts + mp4::opus_samples(data)
            &&& v.audio is Some && follows && n < 24 ==> {
                &&& w.audio_pending == v.audio_pending.push(packet)
                &&& w.out == v.out && w.seq == v.seq
                &&& n > 0 ==> w.audio_batch_dts == v.audio_batch_dts
                &&& n == 0 ==> w.audio_batch_dts == dts
            }
            &&& v.audio is Some && follows && n == 24 ==> {
                &&& w.audio_pending.len() == 0
                &&& w.seq == v.seq + 1
                &&& w.out == v.out + mp4::audio_fragment(
                    w.seq,
                    v.audio_batch_dts,
                    v.audio_pending.push(packet),
                )
            }
            &&& v.audio is Some && !follows ==> {
                &&& w.audio_pending == seq![packet]
                &&& w.audio_batch_dts == dts
                &&& w.seq == v.seq + 1
                &&& w.out == v.out + mp4::audio_fragment(
                    w.seq,
                    v.audio_batch_dts,
                    v.audio_pending,
                )
            }
            &&& w.pending == v.pending && w.last_dts == v.last_dts && w.init == v.init
        }),
{
    let w = v.with_packet(data, dts);
    let packet = (data, mp4::opus_samples(data) as u32);
    if v.audio is Some && !(v.audio_pending.len() == 0 || dts == v.audio_next_dts) {
        assert(w.audio_pending =~= seq![packet]);
    }
}

/// A file that is closed holds nothing back: the packets waiting are written, and then the last
/// sample, as long as the others usually were.
pub proof fn closed_files_hold_nothing_back(v: MuxView)
    ensures
        v.closed_file().pending is None,
        v.closed_file().audio_pending.len() == 0,
        v.audio_pending.len() == 0 && v.pending is None ==> v.closed_file() == v,
        v.pending matches Some(s) ==> v.audio_pending.len() == 0 ==> v.closed_file().out == v.out
            + mp4::video_fragment(v.closed_file().seq, s, mp4::median(v.durations)),
{
}

/// The median is a middle one: it was observed, no more than half of the others are below it, and
/// what is behind it in order is no less.
pub proof fn the_median_stands_in_the_middle(durations: Seq<u32>, i: int)
    requires
        0 <= i < durations.len(),
    ensures
        ({
            let sorted = durations.sort_by(mp4::at_most());
            &&& sorted.len() == durations.len()
            &&& 2 * i <= durations.len() - 1 ==> sorted[i] <= mp4::median(durations)
            &&& 2 * i >= durations.len() ==> mp4::median(durations) <= sorted[i]
        }),
{
    let sorted = durations.sort_by(mp4::at_most());
    durations.lemma_sort_by_ensures(mp4::at_most());
    sorted.to_multiset_ensures();
    durations.to_multiset_ensures();
    assert(sorted.to_multiset().len() == durations.to_multiset().len());
    let m = durations.len() as int / 2;
    assert(vstd::relations::sorted_by(sorted, mp4::at_most()));
    if i < m {
        assert(mp4::at_most()(sorted[i], sorted[m]));
    } else if i > m {
        assert(mp4::at_most()(sorted[m], sorted[i]));
    }
}

/// A file starts with the entry of its parameter sets at the size they give, which the counters
/// tell; where they give none it does not start.
pub proof fn files_start_at_the_size_they_show(
    m: MuxerView,
    frame: Seq<u8>,
    shared: control::RecShared,
    w: u32,
    h: u32,
)
    requires
        sps::sps_size(m.harvested(frame).sps->0) == SpsSize::Pixels(w, h),
        !m.file.init,
    ensures
        m.entry(frame) == mp4::avc1_entry(m.harvested(frame).sps->0, m.harvested(frame).pps->0, w, h),
        m.begun(frame).init,
        m.begun(frame).out == m.file.out + mp4::ftyp_box() + mp4::moov_box(
            m.entry(frame),
            w,
            h,
            m.file.audio,
        ),
        muxer::sized(shared, m.harvested(frame)).width == w,
        muxer::sized(shared, m.harvested(frame)).height == h,
        muxer::sized(shared, m.harvested(frame)).muxed == shared.muxed,
{
    let (a, b, c) = (
        m.file.out,
        mp4::ftyp_box(),
        mp4::moov_box(m.entry(frame), w, h, m.file.audio),
    );
    assert(a + (b + c) =~= a + b + c);
}

/// A backend is told by its name.
pub proof fn backends_are_told_by_name(name: String)
    ensures
        name@ == "x11"@ ==> control::named_backend(Some(name)) == Some(PreferredBackend::X11),
        name@ == "wayland"@ ==> control::named_backend(Some(name)) == Some(PreferredBackend::Wayland),
        name@ != "x11"@ && name@ != "wayland"@ ==> control::named_backend(Some(name)) is None,
        control::named_backend(None) is None,
        PreferredBackend::X11.text() == "x11"@,
        PreferredBackend::Wayland.text() == "wayland"@,
{
    reveal_strlit("x11");
    reveal_strlit("wayland");
    assert("x11"@[0] != "wayland"@[0]);
}

} // verus!
