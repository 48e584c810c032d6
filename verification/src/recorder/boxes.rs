//! ISO base media boxes: a size, a four-character code, then a payload.

use vstd::prelude::*;
use crate::bytes;

verus! {

/// 90 kHz: the conventional H.264 track timescale, exactly representing common frame intervals.
pub const TIMESCALE: u32 = 90_000;

/// Opus in ISO base media runs its track at Opus's own 48 kHz whatever the input rate.
pub const OPUS_TIMESCALE: u32 = 48_000;

pub const FTYP: u32 = 0x6674_7970;

pub const ISOM: u32 = 0x6973_6f6d;

pub const ISO5: u32 = 0x6973_6f35;

pub const ISO6: u32 = 0x6973_6f36;

pub const AVC1: u32 = 0x6176_6331;

pub const AVCC: u32 = 0x6176_6343;

pub const MP41: u32 = 0x6d70_3431;

pub const MOOV: u32 = 0x6d6f_6f76;

pub const MVHD: u32 = 0x6d76_6864;

pub const TRAK: u32 = 0x7472_616b;

pub const TKHD: u32 = 0x746b_6864;

pub const MDIA: u32 = 0x6d64_6961;

pub const MDHD: u32 = 0x6d64_6864;

pub const HDLR: u32 = 0x6864_6c72;

pub const MINF: u32 = 0x6d69_6e66;

pub const VMHD: u32 = 0x766d_6864;

pub const SMHD: u32 = 0x736d_6864;

pub const DINF: u32 = 0x6469_6e66;

pub const DREF: u32 = 0x6472_6566;

pub const URL_: u32 = 0x7572_6c20;

pub const STBL: u32 = 0x7374_626c;

pub const STSD: u32 = 0x7374_7364;

pub const STTS: u32 = 0x7374_7473;

pub const STSC: u32 = 0x7374_7363;

pub const STSZ: u32 = 0x7374_737a;

pub const STCO: u32 = 0x7374_636f;

pub const MVEX: u32 = 0x6d76_6578;

pub const TREX: u32 = 0x7472_6578;

pub const MOOF: u32 = 0x6d6f_6f66;

pub const MFHD: u32 = 0x6d66_6864;

pub const TRAF: u32 = 0x7472_6166;

pub const TFHD: u32 = 0x7466_6864;

pub const TFDT: u32 = 0x7466_6474;

pub const TRUN: u32 = 0x7472_756e;

pub const MDAT: u32 = 0x6d64_6174;

pub const VIDE: u32 = 0x7669_6465;

pub const SOUN: u32 = 0x736f_756e;

pub const OPUS: u32 = 0x4f70_7573;

pub const DOPS: u32 = 0x644f_7073;

/// A box: its total size, its code, its payload. The size field is 32 bits wide.
pub open spec fn boxed(fourcc: u32, payload: Seq<u8>) -> Seq<u8> {
    bytes::be32((8 + payload.len()) as u32) + bytes::be32(fourcc) + payload
}

/// A full box: a box whose payload opens with a version byte and three flag bytes.
pub open spec fn full_box(fourcc: u32, version: u8, flags: u32, payload: Seq<u8>) -> Seq<u8> {
    boxed(fourcc, seq![version] + bytes::be24(flags) + payload)
}

/// Write a box.
pub fn mk_box(fourcc: u32, payload: &[u8]) -> (b: Vec<u8>)
    ensures
        b@ == boxed(fourcc, payload@),
{
    let mut b: Vec<u8> = Vec::new();
    bytes::push_be32(&mut b, (8 + payload.len() as u128) as u32);
    bytes::push_be32(&mut b, fourcc);
    bytes::push_all(&mut b, payload);
    assert(b@ =~= boxed(fourcc, payload@));
    b
}

/// Write a full box.
pub fn mk_full_box(fourcc: u32, version: u8, flags: u32, payload: &[u8]) -> (b: Vec<u8>)
    ensures
        b@ == full_box(fourcc, version, flags, payload@),
{
    let mut p: Vec<u8> = Vec::new();
    p.push(version);
    bytes::push_be24(&mut p, flags);
    bytes::push_all(&mut p, payload);
    assert(p@ =~= seq![version] + bytes::be24(flags) + payload@);
    mk_box(fourcc, p.as_slice())
}

/// The unity transformation matrix `mvhd` and `tkhd` carry: 16.16 fixed point for the first two
/// diagonal entries, 2.30 for the last.
pub open spec fn identity_matrix() -> Seq<u8> {
    bytes::be32(0x0001_0000) + bytes::zeros(12) + bytes::be32(0x0001_0000) + bytes::zeros(12)
        + bytes::be32(0x4000_0000)
}

pub fn push_identity_matrix(out: &mut Vec<u8>)
    ensures
        final(out)@ == old(out)@ + identity_matrix(),
{
    bytes::push_be32(out, 0x0001_0000);
    bytes::push_zeros(out, 12);
    bytes::push_be32(out, 0x0001_0000);
    bytes::push_zeros(out, 12);
    bytes::push_be32(out, 0x4000_0000);
    assert(out@ =~= old(out)@ + identity_matrix());
}

/// The data reference every track shares: an empty `url ` entry flagged self-contained.
pub open spec fn dinf_box() -> Seq<u8> {
    boxed(
        DINF,
        full_box(DREF, 0, 0, bytes::be32(1) + full_box(URL_, 0, 1, Seq::empty())),
    )
}

/// Write the data reference.
pub fn dinf() -> (b: Vec<u8>)
    ensures
        b@ == dinf_box(),
{
    let none: Vec<u8> = Vec::new();
    let url = mk_full_box(URL_, 0, 1, none.as_slice());
    let mut dref_p: Vec<u8> = Vec::new();
    bytes::push_be32(&mut dref_p, 1);
    bytes::push_all(&mut dref_p, url.as_slice());
    assert(none@ =~= Seq::<u8>::empty());
    assert(dref_p@ =~= bytes::be32(1) + full_box(URL_, 0, 1, Seq::empty()));
    let dref = mk_full_box(DREF, 0, 0, dref_p.as_slice());
    mk_box(DINF, dref.as_slice())
}

/// A sample table holding only the sample entry: every sample lives in a fragment.
pub open spec fn stbl_box(sample_entry: Seq<u8>) -> Seq<u8> {
    boxed(
        STBL,
        full_box(STSD, 0, 0, bytes::be32(1) + sample_entry) + full_box(STTS, 0, 0, bytes::be32(0))
            + full_box(STSC, 0, 0, bytes::be32(0)) + full_box(STSZ, 0, 0, bytes::zeros(8))
            + full_box(STCO, 0, 0, bytes::be32(0)),
    )
}

/// Write the sample table.
pub fn stbl(sample_entry: &[u8]) -> (b: Vec<u8>)
    ensures
        b@ == stbl_box(sample_entry@),
{
    let mut stsd_p: Vec<u8> = Vec::new();
    bytes::push_be32(&mut stsd_p, 1);
    bytes::push_all(&mut stsd_p, sample_entry);
    assert(stsd_p@ =~= bytes::be32(1) + sample_entry@);
    let mut none: Vec<u8> = Vec::new();
    bytes::push_be32(&mut none, 0);
    assert(none@ =~= bytes::be32(0));
    let mut sizes: Vec<u8> = Vec::new();
    bytes::push_zeros(&mut sizes, 8);
    assert(sizes@ =~= bytes::zeros(8));
    let stsd = mk_full_box(STSD, 0, 0, stsd_p.as_slice());
    let stts = mk_full_box(STTS, 0, 0, none.as_slice());
    let stsc = mk_full_box(STSC, 0, 0, none.as_slice());
    let stsz = mk_full_box(STSZ, 0, 0, sizes.as_slice());
    let stco = mk_full_box(STCO, 0, 0, none.as_slice());
    let mut p: Vec<u8> = Vec::new();
    bytes::push_all(&mut p, stsd.as_slice());
    bytes::push_all(&mut p, stts.as_slice());
    bytes::push_all(&mut p, stsc.as_slice());
    bytes::push_all(&mut p, stsz.as_slice());
    bytes::push_all(&mut p, stco.as_slice());
    assert(p@ =~= stsd@ + stts@ + stsc@ + stsz@ + stco@);
    mk_box(STBL, p.as_slice())
}

/// A display extent as `tkhd` carries it: 16.16 fixed point, whose integer part keeps the low
/// sixteen bits.
pub open spec fn fixed16(v: u32) -> u32 {
    (v % 0x1_0000 * 0x1_0000) as u32
}

/// `tkhd`, enabled and in the movie: creation and modification time, track id, reserved,
/// duration, reserved, layer, alternate group, volume, reserved, the unity matrix, the size.
pub open spec fn tkhd_box(track_id: u32, width: u32, height: u32, volume: u16) -> Seq<u8> {
    full_box(
        TKHD,
        0,
        3,
        bytes::zeros(8) + bytes::be32(track_id) + bytes::zeros(4) + bytes::be32(0) + bytes::zeros(
            12,
        ) + bytes::be16(volume) + bytes::zeros(2) + identity_matrix() + bytes::be32(fixed16(width))
            + bytes::be32(fixed16(height)),
    )
}

/// `mdhd`: creation and modification time, timescale, duration, the undetermined language.
pub open spec fn mdhd_box(timescale: u32) -> Seq<u8> {
    full_box(
        MDHD,
        0,
        0,
        bytes::zeros(8) + bytes::be32(timescale) + bytes::be32(0) + bytes::be16(0x55c4)
            + bytes::zeros(2),
    )
}

/// The handler name: `pixelflux`, closed by a zero byte.
pub open spec fn handler_name() -> Seq<u8> {
    seq![0x70u8, 0x69, 0x78, 0x65, 0x6c, 0x66, 0x6c, 0x75, 0x78, 0]
}

/// `hdlr`: pre-defined, the handler type, reserved, the name.
pub open spec fn hdlr_box(handler: u32) -> Seq<u8> {
    full_box(
        HDLR,
        0,
        0,
        bytes::zeros(4) + bytes::be32(handler) + bytes::zeros(12) + handler_name(),
    )
}

/// One track: its header, then its media (header, handler, media information).
#[verifier::opaque]
pub open spec fn trak_box(
    track_id: u32,
    timescale: u32,
    handler: u32,
    media_header: Seq<u8>,
    sample_entry: Seq<u8>,
    width: u32,
    height: u32,
    volume: u16,
) -> Seq<u8> {
    boxed(
        TRAK,
        tkhd_box(track_id, width, height, volume) + boxed(
            MDIA,
            mdhd_box(timescale) + hdlr_box(handler) + boxed(
                MINF,
                media_header + dinf_box() + stbl_box(sample_entry),
            ),
        ),
    )
}

/// A track takes 318 bytes besides its media header and its sample entry.
pub proof fn trak_length(
    track_id: u32,
    timescale: u32,
    handler: u32,
    media_header: Seq<u8>,
    sample_entry: Seq<u8>,
    width: u32,
    height: u32,
    volume: u16,
)
    ensures
        trak_box(
            track_id,
            timescale,
            handler,
            media_header,
            sample_entry,
            width,
            height,
            volume,
        ).len() == 318 + media_header.len() + sample_entry.len(),
{
    reveal(trak_box);
    assert(identity_matrix().len() == 36);
    assert(tkhd_box(track_id, width, height, volume).len() == 92);
    assert(mdhd_box(timescale).len() == 32);
    assert(hdlr_box(handler).len() == 42);
    assert(dinf_box().len() == 36);
    assert(stbl_box(sample_entry).len() == 92 + sample_entry.len());
}

fn tkhd(track_id: u32, width: u32, height: u32, volume: u16) -> (b: Vec<u8>)
    ensures
        b@ == tkhd_box(track_id, width, height, volume),
{
    let mut p: Vec<u8> = Vec::new();
    bytes::push_zeros(&mut p, 8);
    bytes::push_be32(&mut p, track_id);
    bytes::push_zeros(&mut p, 4);
    bytes::push_be32(&mut p, 0);
    bytes::push_zeros(&mut p, 12);
    bytes::push_be16(&mut p, volume);
    bytes::push_zeros(&mut p, 2);
    push_identity_matrix(&mut p);
    bytes::push_be32(&mut p, width % 0x1_0000 * 0x1_0000);
    bytes::push_be32(&mut p, height % 0x1_0000 * 0x1_0000);
    assert(p@ =~= bytes::zeros(8) + bytes::be32(track_id) + bytes::zeros(4) + bytes::be32(0)
        + bytes::zeros(12) + bytes::be16(volume) + bytes::zeros(2) + identity_matrix()
        + bytes::be32(fixed16(width)) + bytes::be32(fixed16(height)));
    mk_full_box(TKHD, 0, 3, p.as_slice())
}

fn mdhd(timescale: u32) -> (b: Vec<u8>)
    ensures
        b@ == mdhd_box(timescale),
{
    let mut p: Vec<u8> = Vec::new();
    bytes::push_zeros(&mut p, 8);
    bytes::push_be32(&mut p, timescale);
    bytes::push_be32(&mut p, 0);
    bytes::push_be16(&mut p, 0x55c4);
    bytes::push_zeros(&mut p, 2);
    assert(p@ =~= bytes::zeros(8) + bytes::be32(timescale) + bytes::be32(0) + bytes::be16(0x55c4)
        + bytes::zeros(2));
    mk_full_box(MDHD, 0, 0, p.as_slice())
}

fn hdlr(handler: u32) -> (b: Vec<u8>)
    ensures
        b@ == hdlr_box(handler),
{
    let mut p: Vec<u8> = Vec::new();
    bytes::push_zeros(&mut p, 4);
    bytes::push_be32(&mut p, handler);
    bytes::push_zeros(&mut p, 12);
    let name: Vec<u8> = vec![0x70u8, 0x69, 0x78, 0x65, 0x6c, 0x66, 0x6c, 0x75, 0x78, 0];
    bytes::push_all(&mut p, name.as_slice());
    assert(name@ =~= handler_name());
    assert(p@ =~= bytes::zeros(4) + bytes::be32(handler) + bytes::zeros(12) + handler_name());
    mk_full_box(HDLR, 0, 0, p.as_slice())
}

/// Write one track: `tkhd` with the display size or, for audio, the volume; `mdhd` at
/// `timescale`; the handler; then the media header given and the sample table.
pub fn trak(
    track_id: u32,
    timescale: u32,
    handler: u32,
    media_header: &[u8],
    sample_entry: &[u8],
    width: u32,
    height: u32,
    volume: u16,
) -> (b: Vec<u8>)
    ensures
        b@ == trak_box(
            track_id,
            timescale,
            handler,
            media_header@,
            sample_entry@,
            width,
            height,
            volume,
        ),
{
    proof {
        reveal(trak_box);
    }
    let mut minf_p: Vec<u8> = Vec::new();
    bytes::push_all(&mut minf_p, media_header);
    bytes::push_all(&mut minf_p, dinf().as_slice());
    bytes::push_all(&mut minf_p, stbl(sample_entry).as_slice());
    assert(minf_p@ =~= media_header@ + dinf_box() + stbl_box(sample_entry@));
    let minf = mk_box(MINF, minf_p.as_slice());
    let mut mdia_p = mdhd(timescale);
    bytes::push_all(&mut mdia_p, hdlr(handler).as_slice());
    bytes::push_all(&mut mdia_p, minf.as_slice());
    assert(mdia_p@ =~= mdhd_box(timescale) + hdlr_box(handler) + minf@);
    let mdia = mk_box(MDIA, mdia_p.as_slice());
    let mut trak_p = tkhd(track_id, width, height, volume);
    bytes::push_all(&mut trak_p, mdia.as_slice());
    mk_box(TRAK, trak_p.as_slice())
}

/// `trex`: the track, its sample description, the default duration, size and flags.
pub open spec fn trex_box(track_id: u32, default_duration: u32) -> Seq<u8> {
    full_box(
        TREX,
        0,
        0,
        bytes::be32(track_id) + bytes::be32(1) + bytes::be32(default_duration) + bytes::zeros(8),
    )
}

/// Write a `trex` whose fragments state their own sizes and flags, and their own durations
/// unless `default_duration` is set.
pub fn trex(track_id: u32, default_duration: u32) -> (b: Vec<u8>)
    ensures
        b@ == trex_box(track_id, default_duration),
{
    let mut p: Vec<u8> = Vec::new();
    bytes::push_be32(&mut p, track_id);
    bytes::push_be32(&mut p, 1);
    bytes::push_be32(&mut p, default_duration);
    bytes::push_zeros(&mut p, 8);
    assert(p@ =~= bytes::be32(track_id) + bytes::be32(1) + bytes::be32(default_duration)
        + bytes::zeros(8));
    mk_full_box(TREX, 0, 0, p.as_slice())
}

} // verus!
