//! What a reader finds in the bytes of a file: the fields of each box, at the places and with the
//! values that the container format gives them.

use vstd::prelude::*;
use crate::bytes;
use super::boxes;
use super::mp4;
use super::mp4::{PacketView, SampleView};
use super::ogg::OpusHead;

verus! {

/// The number whose four bytes stand at `at`, most significant first.
#[verifier::opaque]
pub open spec fn word(s: Seq<u8>, at: int) -> int {
    s[at] * 0x100_0000 + s[at + 1] * 0x1_0000 + s[at + 2] * 0x100 + s[at + 3]
}

proof fn one_word(v: u32)
    ensures
        bytes::be32(v).len() == 4,
        word(bytes::be32(v), 0) == v,
{
    reveal(word);
}

proof fn joined(a: Seq<u8>, b: Seq<u8>)
    ensures
        (a + b).len() == a.len() + b.len(),
        forall|at: int|
            #![trigger word(a + b, at)]
            0 <= at && at + 4 <= a.len() ==> word(a + b, at) == word(a, at),
        forall|at: int|
            #![trigger word(a + b, at)]
            a.len() <= at && at + 4 <= a.len() + b.len() ==> word(a + b, at) == word(
                b,
                at - a.len(),
            ),
{
    reveal(word);
}

#[verifier::spinoff_prover]
#[verifier::rlimit(40)]
proof fn in_box(code: u32, payload: Seq<u8>)
    ensures
        boxes::boxed(code, payload).len() == 8 + payload.len(),
        8 + payload.len() <= u32::MAX ==> word(boxes::boxed(code, payload), 0) == 8
            + payload.len(),
        word(boxes::boxed(code, payload), 4) == code,
        boxes::boxed(code, payload).skip(8) == payload,
        forall|at: int|
            #![trigger word(boxes::boxed(code, payload), at)]
            8 <= at && at + 4 <= 8 + payload.len() ==> word(boxes::boxed(code, payload), at)
                == word(payload, at - 8),
{
    let b = boxes::boxed(code, payload);
    let size = (8 + payload.len()) as u32;
    one_word(size);
    one_word(code);
    joined(bytes::be32(size), bytes::be32(code));
    joined(bytes::be32(size) + bytes::be32(code), payload);
    assert(b == bytes::be32(size) + bytes::be32(code) + payload);
    assert(b.skip(8) =~= payload);
}

proof fn flag_word(version: u8, flags: u32)
    requires
        flags < 0x100_0000,
    ensures
        (seq![version] + bytes::be24(flags)).len() == 4,
        word(seq![version] + bytes::be24(flags), 0) == version * 0x100_0000 + flags,
{
    reveal(word);
}

proof fn skipped(a: Seq<u8>, b: Seq<u8>)
    ensures
        (a + b).skip(a.len() as int) == b,
{
    assert((a + b).skip(a.len() as int) =~= b);
}

proof fn skipped_twice(s: Seq<u8>, n: int, m: int)
    requires
        0 <= n,
        0 <= m,
        n + m <= s.len(),
    ensures
        s.skip(n).skip(m) == s.skip(n + m),
{
    assert(s.skip(n).skip(m) =~= s.skip(n + m));
}

#[verifier::spinoff_prover]
#[verifier::rlimit(40)]
proof fn in_full_box(code: u32, version: u8, flags: u32, payload: Seq<u8>)
    requires
        flags < 0x100_0000,
    ensures
        ({
            let b = boxes::full_box(code, version, flags, payload);
            &&& b.len() == 12 + payload.len()
            &&& 12 + payload.len() <= u32::MAX ==> word(b, 0) == 12 + payload.len()
            &&& word(b, 4) == code
            &&& word(b, 8) == version * 0x100_0000 + flags
            &&& b.skip(12) == payload
        }),
        forall|at: int|
            #![trigger word(boxes::full_box(code, version, flags, payload), at)]
            12 <= at && at + 4 <= 12 + payload.len() ==> word(
                boxes::full_box(code, version, flags, payload),
                at,
            ) == word(payload, at - 12),
{
    let b = boxes::full_box(code, version, flags, payload);
    let head = seq![version] + bytes::be24(flags);
    flag_word(version, flags);
    in_box(code, head + payload);
    joined(head, payload);
    skipped(head, payload);
    skipped_twice(b, 8, 4);
    assert(b == boxes::boxed(code, head + payload));
    assert(word(b, 8) == word(head + payload, 0));
    assert forall|at: int|
        #![trigger word(b, at)]
        12 <= at && at + 4 <= 12 + payload.len() implies word(b, at) == word(payload, at - 12) by {
        assert(word(b, at) == word(head + payload, at - 8));
    }
}

/// The fields of a fragment's header before its run.
#[verifier::spinoff_prover]
#[verifier::rlimit(40)]
proof fn in_moof(seq: u32, tfhd: Seq<u8>, dts: u64, trun: Seq<u8>)
    requires
        52 + tfhd.len() + trun.len() <= u32::MAX,
    ensures
        ({
            let m = mp4::moof_box(seq, tfhd, dts, trun);
            let d = 32 + tfhd.len() as int;
            &&& m.len() == 52 + tfhd.len() + trun.len()
            &&& word(m, 0) == m.len() && word(m, 4) == 0x6d6f_6f66
            &&& word(m, 8) == 16 && word(m, 12) == 0x6d66_6864 && word(m, 16) == 0
            &&& word(m, 20) == seq
            &&& word(m, 24) == m.len() - 24 && word(m, 28) == 0x7472_6166
            &&& word(m, d) == 20 && word(m, d + 4) == 0x7466_6474 && word(m, d + 8) == 0x0100_0000
            &&& word(m, d + 12) * 0x1_0000_0000 + word(m, d + 16) == dts
        }),
        forall|at: int|
            #![trigger word(mp4::moof_box(seq, tfhd, dts, trun), at)]
            32 <= at && at + 4 <= 32 + tfhd.len() ==> word(
                mp4::moof_box(seq, tfhd, dts, trun),
                at,
            ) == word(tfhd, at - 32),
        forall|at: int|
            #![trigger word(mp4::moof_box(seq, tfhd, dts, trun), at)]
            52 + tfhd.len() <= at && at + 4 <= 52 + tfhd.len() + trun.len() ==> word(
                mp4::moof_box(seq, tfhd, dts, trun),
                at,
            ) == word(trun, at - 52 - tfhd.len()),
{
    let mfhd = boxes::full_box(boxes::MFHD, 0, 0, bytes::be32(seq));
    let (high, low) = ((dts / 0x1_0000_0000) as u32, (dts % 0x1_0000_0000) as u32);
    let tfdt = boxes::full_box(boxes::TFDT, 1, 0, bytes::be64(dts));
    let inner = tfhd + tfdt + trun;
    let traf = boxes::boxed(boxes::TRAF, inner);
    let m = mp4::moof_box(seq, tfhd, dts, trun);
    let d = 32 + tfhd.len() as int;
    one_word(seq);
    one_word(high);
    one_word(low);
    joined(bytes::be32(high), bytes::be32(low));
    in_full_box(boxes::MFHD, 0, 0, bytes::be32(seq));
    in_full_box(boxes::TFDT, 1, 0, bytes::be64(dts));
    assert(word(tfdt, 12) == word(bytes::be64(dts), 0));
    assert(word(tfdt, 16) == word(bytes::be64(dts), 4));
    joined(tfhd, tfdt);
    joined(tfhd + tfdt, trun);
    in_box(boxes::TRAF, inner);
    joined(mfhd, traf);
    in_box(boxes::MOOF, mfhd + traf);
    assert(m == boxes::boxed(boxes::MOOF, mfhd + traf));
    assert forall|at: int| #![trigger word(m, at)] 32 <= at && at + 4 <= m.len() implies word(m, at)
        == word(inner, at - 32) by {
        assert(word(m, at) == word(mfhd + traf, at - 8));
        assert(word(mfhd + traf, at - 8) == word(traf, at - 8 - 16));
        assert(word(traf, at - 24) == word(inner, at - 24 - 8));
    }
    assert forall|at: int| #![trigger word(inner, at)] 0 <= at && at + 4 <= 20
        + tfhd.len() implies word(inner, at) == word(tfhd + tfdt, at) by {}
    assert(word(m, d) == word(tfdt, 0));
    assert(word(m, d + 4) == word(tfdt, 4));
    assert(word(m, d + 8) == word(tfdt, 8));
    assert(word(m, d + 12) == word(tfdt, 12));
    assert(word(m, d + 16) == word(tfdt, 16));
    assert(word(m, 24) == word(mfhd + traf, 16));
    assert(word(m, 28) == word(mfhd + traf, 20));
}

/// A reader of a video fragment finds: the fragment's number; track 1, with offsets that count from
/// the fragment's start; the sample's decode time; a run of one sample whose data stands 108 bytes
/// in, with its duration and its size; and the sample's bytes there. Its flags word has the
/// non-sync bit clear exactly for a sync sample, and says of a sync sample that it depends on no
/// other, of any other that it does.
#[verifier::spinoff_prover]
#[verifier::rlimit(40)]
pub proof fn video_fragments_read_back(seq: u32, s: SampleView, duration: u32)
    requires
        8 + s.data.len() <= u32::MAX,
    ensures
        ({
            let f = mp4::video_fragment(seq, s, duration);
            &&& f.len() == 108 + s.data.len()
            &&& word(f, 0) == 100 && word(f, 4) == 0x6d6f_6f66
            &&& word(f, 8) == 16 && word(f, 12) == 0x6d66_6864 && word(f, 16) == 0
            &&& word(f, 20) == seq
            &&& word(f, 24) == 76 && word(f, 28) == 0x7472_6166
            &&& word(f, 32) == 16 && word(f, 36) == 0x7466_6864
            &&& word(f, 40) == 0x0002_0000 && word(f, 44) == 1
            &&& word(f, 48) == 20 && word(f, 52) == 0x7466_6474 && word(f, 56) == 0x0100_0000
            &&& word(f, 60) * 0x1_0000_0000 + word(f, 64) == s.dts
            &&& word(f, 68) == 32 && word(f, 72) == 0x7472_756e
            &&& word(f, 76) == 0x0000_0701 && word(f, 80) == 1 && word(f, 84) == 108
            &&& word(f, 88) == duration && word(f, 92) == s.data.len()
            &&& word(f, 96) as u32 & 0x0001_0000 == 0 <==> s.sync
            &&& word(f, 96) as u32 & 0x0300_0000 == (if s.sync {
                0x0200_0000u32
            } else {
                0x0100_0000u32
            })
            &&& word(f, 96) as u32 & 0xfcfe_ffff == 0
            &&& word(f, 100) == 8 + s.data.len() && word(f, 104) == 0x6d64_6174
            &&& f.skip(108) == s.data
        }),
{
    let size = s.data.len() as u32;
    let flags = mp4::sample_flags(s.sync);
    let tfhd = boxes::full_box(boxes::TFHD, 0, 0x02_0000, bytes::be32(1));
    let (a, b, c, d, e) = (
        bytes::be32(1),
        bytes::be32(108),
        bytes::be32(duration),
        bytes::be32(size),
        bytes::be32(flags),
    );
    let payload = a + b + c + d + e;
    let trun = boxes::full_box(boxes::TRUN, 0, 0x00_0701, payload);
    let moof = mp4::video_moof(seq, s.dts, s.sync, duration, size);
    let mdat = boxes::boxed(boxes::MDAT, s.data);
    let f = mp4::video_fragment(seq, s, duration);
    one_word(1);
    one_word(108);
    one_word(duration);
    one_word(size);
    one_word(flags);
    in_full_box(boxes::TFHD, 0, 0x02_0000, a);
    joined(a, b);
    joined(a + b, c);
    joined(a + b + c, d);
    joined(a + b + c + d, e);
    assert(payload.len() == 20);
    assert(word(payload, 0) == word(a, 0));
    assert(word(payload, 4) == word(b, 0));
    assert(word(payload, 8) == word(c, 0));
    assert(word(payload, 12) == word(d, 0));
    assert(word(payload, 16) == word(e, 0));
    in_full_box(boxes::TRUN, 0, 0x00_0701, payload);
    in_moof(seq, tfhd, s.dts, trun);
    assert(moof == mp4::moof_box(seq, tfhd, s.dts, trun)) by {
        reveal(mp4::video_moof);
    }
    in_box(boxes::MDAT, s.data);
    joined(moof, mdat);
    assert(f == moof + mdat);
    assert(f.skip(108) =~= mdat.skip(8));
    assert(word(f, 32) == word(tfhd, 0) && word(f, 36) == word(tfhd, 4) && word(f, 40) == word(
        tfhd,
        8,
    ) && word(f, 44) == word(tfhd, 12));
    assert(word(f, 68) == word(trun, 0) && word(f, 72) == word(trun, 4) && word(f, 76) == word(
        trun,
        8,
    ));
    assert(word(f, 80) == word(trun, 12) && word(f, 84) == word(trun, 16) && word(f, 88) == word(
        trun,
        20,
    ) && word(f, 92) == word(trun, 24) && word(f, 96) == word(trun, 28));
    assert(0x0200_0000u32 & 0x0001_0000 == 0 && 0x0200_0000u32 & 0x0300_0000 == 0x0200_0000u32
        && 0x0200_0000u32 & 0xfcfe_ffff == 0) by (bit_vector);
    assert(0x0101_0000u32 & 0x0001_0000 != 0 && 0x0101_0000u32 & 0x0300_0000 == 0x0100_0000u32
        && 0x0101_0000u32 & 0xfcfe_ffff == 0) by (bit_vector);
}

/// The entries of an audio run: each packet's duration, then its size.
#[verifier::spinoff_prover]
#[verifier::rlimit(40)]
proof fn in_runs(packets: Seq<PacketView>, i: int)
    requires
        0 <= i < packets.len(),
    ensures
        mp4::audio_runs(packets).len() == 8 * packets.len(),
        word(mp4::audio_runs(packets), 8 * i) == packets[i].1,
        packets[i].0.len() <= u32::MAX ==> word(mp4::audio_runs(packets), 8 * i + 4)
            == packets[i].0.len(),
    decreases packets.len(),
{
    let fewer = packets.drop_last();
    let (a, b, c) = (
        mp4::audio_runs(fewer),
        bytes::be32(packets.last().1),
        bytes::be32(packets.last().0.len() as u32),
    );
    one_word(packets.last().1);
    one_word(packets.last().0.len() as u32);
    joined(a, b);
    joined(a + b, c);
    if fewer.len() > 0 {
        in_runs(fewer, 0);
    }
    assert(a.len() == 8 * fewer.len());
    if i < fewer.len() {
        in_runs(fewer, i);
        assert(word(a + b + c, 8 * i) == word(a + b, 8 * i));
        assert(word(a + b + c, 8 * i + 4) == word(a + b, 8 * i + 4));
    } else {
        assert(word(a + b + c, 8 * i) == word(a + b, 8 * i));
        assert(word(a + b + c, 8 * i + 4) == word(c, 0));
    }
}

/// The packets of an audio fragment stand in it one behind another, in order.
pub proof fn packets_stand_one_behind_another(packets: Seq<PacketView>)
    ensures
        mp4::audio_data(packets) == packets.map_values(|p: PacketView| p.0).flatten(),
    decreases packets.len(),
{
    let firsts = packets.map_values(|p: PacketView| p.0);
    if packets.len() == 0 {
        assert(firsts =~= seq![]);
        assert(firsts.flatten() =~= seq![]);
    } else {
        let fewer = packets.drop_last();
        packets_stand_one_behind_another(fewer);
        let rest = fewer.map_values(|p: PacketView| p.0);
        assert(firsts =~= rest.push(packets.last().0));
        rest.lemma_flatten_push(packets.last().0);
    }
}

#[verifier::opaque]
spec fn audio_run(packets: Seq<PacketView>) -> Seq<u8> {
    boxes::full_box(
        boxes::TRUN,
        0,
        0x00_0301,
        bytes::be32(packets.len() as u32) + bytes::be32((100 + 8 * packets.len()) as u32)
            + mp4::audio_runs(packets),
    )
}

proof fn in_audio_run(packets: Seq<PacketView>, i: int)
    requires
        0 <= i < packets.len() <= mp4::AUDIO_FLUSH_SAMPLES,
        packets[i].0.len() <= u32::MAX,
    ensures
        ({
            let t = audio_run(packets);
            let n = packets.len() as int;
            &&& t.len() == 20 + 8 * n
            &&& word(t, 0) == 20 + 8 * n && word(t, 4) == 0x7472_756e
            &&& word(t, 8) == 0x0000_0301 && word(t, 12) == n && word(t, 16) == 100 + 8 * n
            &&& word(t, 20 + 8 * i) == packets[i].1
            &&& word(t, 24 + 8 * i) == packets[i].0.len()
        }),
{
    let n = packets.len() as int;
    let (count, offset) = (n as u32, (100 + 8 * n) as u32);
    let (a, b, runs) = (bytes::be32(count), bytes::be32(offset), mp4::audio_runs(packets));
    let payload = a + b + runs;
    let t = audio_run(packets);
    one_word(count);
    one_word(offset);
    in_runs(packets, i);
    joined(a, b);
    joined(a + b, runs);
    in_full_box(boxes::TRUN, 0, 0x00_0301, payload);
    assert(t == boxes::full_box(boxes::TRUN, 0, 0x00_0301, payload)) by {
        reveal(audio_run);
    }
    assert(word(t, 12) == word(payload, 0));
    assert(word(payload, 0) == word(a + b, 0));
    assert(word(t, 16) == word(payload, 4));
    assert(word(payload, 4) == word(a + b, 4));
    assert(word(t, 20 + 8 * i) == word(payload, 8 + 8 * i));
    assert(word(payload, 8 + 8 * i) == word(runs, 8 * i));
    assert(word(t, 24 + 8 * i) == word(payload, 12 + 8 * i));
    assert(word(payload, 12 + 8 * i) == word(runs, 8 * i + 4));
}

#[verifier::opaque]
spec fn audio_header() -> Seq<u8> {
    boxes::full_box(boxes::TFHD, 0, 0x02_0020, bytes::be32(2) + bytes::be32(0x0200_0000))
}

proof fn in_audio_header()
    ensures
        ({
            let h = audio_header();
            &&& h.len() == 20
            &&& word(h, 0) == 20 && word(h, 4) == 0x7466_6864 && word(h, 8) == 0x0002_0020
            &&& word(h, 12) == 2 && word(h, 16) == 0x0200_0000
        }),
{
    let (id, sync) = (bytes::be32(2), bytes::be32(0x0200_0000));
    let h = audio_header();
    one_word(2);
    one_word(0x0200_0000);
    joined(id, sync);
    in_full_box(boxes::TFHD, 0, 0x02_0020, id + sync);
    assert(h == boxes::full_box(boxes::TFHD, 0, 0x02_0020, id + sync)) by {
        reveal(audio_header);
    }
    assert(word(h, 12) == word(id + sync, 0) && word(h, 16) == word(id + sync, 4));
}

/// A reader of an audio fragment finds: the fragment's number; track 2, whose samples all are sync
/// samples; the decode time of the first packet; a run with an entry for each packet, its duration
/// and its size; and the packets where the run says.
#[verifier::spinoff_prover]
#[verifier::rlimit(40)]
pub proof fn audio_fragments_read_back(seq: u32, dts: u64, packets: Seq<PacketView>, i: int)
    requires
        0 <= i < packets.len() <= mp4::AUDIO_FLUSH_SAMPLES,
        8 + mp4::audio_data(packets).len() <= u32::MAX,
        packets[i].0.len() <= u32::MAX,
    ensures
        ({
            let f = mp4::audio_fragment(seq, dts, packets);
            let n = packets.len() as int;
            &&& f.len() == 100 + 8 * n + mp4::audio_data(packets).len()
            &&& word(f, 0) == 92 + 8 * n && word(f, 4) == 0x6d6f_6f66
            &&& word(f, 8) == 16 && word(f, 12) == 0x6d66_6864 && word(f, 16) == 0
            &&& word(f, 20) == seq
            &&& word(f, 24) == 68 + 8 * n && word(f, 28) == 0x7472_6166
            &&& word(f, 32) == 20 && word(f, 36) == 0x7466_6864
            &&& word(f, 40) == 0x0002_0020 && word(f, 44) == 2 && word(f, 48) == 0x0200_0000
            &&& word(f, 52) == 20 && word(f, 56) == 0x7466_6474 && word(f, 60) == 0x0100_0000
            &&& word(f, 64) * 0x1_0000_0000 + word(f, 68) == dts
            &&& word(f, 72) == 20 + 8 * n && word(f, 76) == 0x7472_756e
            &&& word(f, 80) == 0x0000_0301 && word(f, 84) == n && word(f, 88) == 100 + 8 * n
            &&& word(f, 92 + 8 * i) == packets[i].1
            &&& word(f, 96 + 8 * i) == packets[i].0.len()
            &&& word(f, 92 + 8 * n) == f.len() - (92 + 8 * n)
            &&& word(f, 96 + 8 * n) == 0x6d64_6174
            &&& f.skip(100 + 8 * n) == packets.map_values(|p: PacketView| p.0).flatten()
        }),
{
    let n = packets.len() as int;
    let (tfhd, trun) = (audio_header(), audio_run(packets));
    let moof = mp4::audio_moof(seq, dts, packets);
    let data = mp4::audio_data(packets);
    let mdat = boxes::boxed(boxes::MDAT, data);
    let f = mp4::audio_fragment(seq, dts, packets);
    in_audio_header();
    in_audio_run(packets, i);
    packets_stand_one_behind_another(packets);
    in_moof(seq, tfhd, dts, trun);
    assert(moof == mp4::moof_box(seq, tfhd, dts, trun)) by {
        reveal(mp4::audio_moof);
        reveal(audio_header);
        reveal(audio_run);
    }
    in_box(boxes::MDAT, data);
    joined(moof, mdat);
    assert(f == moof + mdat);
    assert(f.skip(100 + 8 * n) =~= mdat.skip(8));
    assert forall|at: int| #![trigger word(f, at)] 0 <= at && at + 4 <= moof.len() implies word(f, at)
        == word(moof, at) by {}
    assert(word(f, 32) == word(tfhd, 0) && word(f, 36) == word(tfhd, 4) && word(f, 40) == word(
        tfhd,
        8,
    ) && word(f, 44) == word(tfhd, 12) && word(f, 48) == word(tfhd, 16));
    assert(word(f, 72) == word(trun, 0) && word(f, 76) == word(trun, 4) && word(f, 80) == word(
        trun,
        8,
    ) && word(f, 84) == word(trun, 12) && word(f, 88) == word(trun, 16));
    assert(word(f, 92 + 8 * i) == word(trun, 20 + 8 * i));
    assert(word(f, 96 + 8 * i) == word(trun, 24 + 8 * i));
    assert(word(f, 92 + 8 * n) == word(mdat, 0));
    assert(word(f, 96 + 8 * n) == word(mdat, 4));
}

/// The header of a track: its number, its volume, that it is shown as it is, and its size.
#[verifier::spinoff_prover]
#[verifier::rlimit(40)]
proof fn in_tkhd(track_id: u32, width: u32, height: u32, volume: u16)
    ensures
        ({
            let b = boxes::tkhd_box(track_id, width, height, volume);
            &&& b.len() == 92
            &&& word(b, 0) == 92 && word(b, 4) == 0x746b_6864 && word(b, 8) == 3
            &&& word(b, 20) == track_id && word(b, 28) == 0 && word(b, 44) == volume * 0x1_0000
            &&& word(b, 48) == 0x0001_0000 && word(b, 64) == 0x0001_0000 && word(b, 80)
                == 0x4000_0000
            &&& word(b, 84) == (width % 0x1_0000) * 0x1_0000
            &&& word(b, 88) == (height % 0x1_0000) * 0x1_0000
        }),
{
    reveal(word);
    let p = bytes::zeros(8) + bytes::be32(track_id) + bytes::zeros(4) + bytes::be32(0)
        + bytes::zeros(12) + bytes::be16(volume) + bytes::zeros(2) + boxes::identity_matrix()
        + bytes::be32(boxes::fixed16(width)) + bytes::be32(boxes::fixed16(height));
    in_full_box(boxes::TKHD, 0, 3, p);
    let b = boxes::tkhd_box(track_id, width, height, volume);
    assert(p.len() == 80);
    assert(word(b, 20) == word(p, 8));
    assert(word(b, 28) == word(p, 16));
    assert(word(b, 44) == word(p, 32));
    assert(word(b, 48) == word(p, 36));
    assert(word(b, 64) == word(p, 52));
    assert(word(b, 80) == word(p, 68));
    assert(word(b, 84) == word(p, 72));
    assert(word(b, 88) == word(p, 76));
}

/// The header of a track's media: its clock, and no language.
proof fn in_mdhd(timescale: u32)
    ensures
        ({
            let b = boxes::mdhd_box(timescale);
            &&& b.len() == 32
            &&& word(b, 0) == 32 && word(b, 4) == 0x6d64_6864 && word(b, 8) == 0
            &&& word(b, 20) == timescale && word(b, 24) == 0 && word(b, 28) == 0x55c4_0000
        }),
{
    reveal(word);
    let p = bytes::zeros(8) + bytes::be32(timescale) + bytes::be32(0) + bytes::be16(0x55c4)
        + bytes::zeros(2);
    in_full_box(boxes::MDHD, 0, 0, p);
    let b = boxes::mdhd_box(timescale);
    assert(word(b, 20) == word(p, 8));
    assert(word(b, 24) == word(p, 12));
    assert(word(b, 28) == word(p, 16));
}

/// The handler of a track: what kind of media it carries.
proof fn in_hdlr(handler: u32)
    ensures
        ({
            let b = boxes::hdlr_box(handler);
            &&& b.len() == 42
            &&& word(b, 0) == 42 && word(b, 4) == 0x6864_6c72 && word(b, 8) == 0
            &&& word(b, 12) == 0 && word(b, 16) == handler
            &&& b[41] == 0
        }),
{
    reveal(word);
    let p = bytes::zeros(4) + bytes::be32(handler) + bytes::zeros(12) + boxes::handler_name();
    in_full_box(boxes::HDLR, 0, 0, p);
    let b = boxes::hdlr_box(handler);
    assert(word(b, 12) == word(p, 0));
    assert(word(b, 16) == word(p, 4));
    assert(b.skip(12)[29] == p[29]);
}

/// The sample table of a track: its one sample entry, and no samples, which the fragments hold.
#[verifier::spinoff_prover]
#[verifier::rlimit(40)]
proof fn in_stbl(entry: Seq<u8>)
    requires
        92 + entry.len() <= u32::MAX,
    ensures
        ({
            let b = boxes::stbl_box(entry);
            let n = entry.len() as int;
            &&& b.len() == 92 + n
            &&& word(b, 0) == 92 + n && word(b, 4) == 0x7374_626c
            &&& word(b, 8) == 16 + n && word(b, 12) == 0x7374_7364 && word(b, 16) == 0
            &&& word(b, 20) == 1
            &&& b.subrange(24, 24 + n) == entry
            &&& word(b, 24 + n) == 16 && word(b, 28 + n) == 0x7374_7473 && word(b, 36 + n) == 0
            &&& word(b, 40 + n) == 16 && word(b, 44 + n) == 0x7374_7363 && word(b, 52 + n) == 0
            &&& word(b, 56 + n) == 20 && word(b, 60 + n) == 0x7374_737a && word(b, 68 + n) == 0
                && word(b, 72 + n) == 0
            &&& word(b, 76 + n) == 16 && word(b, 80 + n) == 0x7374_636f && word(b, 88 + n) == 0
        }),
{
    let n = entry.len() as int;
    let stsd = boxes::full_box(boxes::STSD, 0, 0, bytes::be32(1) + entry);
    let stts = boxes::full_box(boxes::STTS, 0, 0, bytes::be32(0));
    let stsc = boxes::full_box(boxes::STSC, 0, 0, bytes::be32(0));
    let stsz = boxes::full_box(boxes::STSZ, 0, 0, bytes::zeros(8));
    let stco = boxes::full_box(boxes::STCO, 0, 0, bytes::be32(0));
    let inner = stsd + stts + stsc + stsz + stco;
    let b = boxes::stbl_box(entry);
    one_word(0);
    one_word(1);
    joined(bytes::be32(1), entry);
    in_full_box(boxes::STSD, 0, 0, bytes::be32(1) + entry);
    in_full_box(boxes::STTS, 0, 0, bytes::be32(0));
    in_full_box(boxes::STSC, 0, 0, bytes::be32(0));
    in_full_box(boxes::STSZ, 0, 0, bytes::zeros(8));
    in_full_box(boxes::STCO, 0, 0, bytes::be32(0));
    assert(word(bytes::zeros(8), 0) == 0 && word(bytes::zeros(8), 4) == 0) by {
        reveal(word);
    }
    joined(stsd, stts);
    joined(stsd + stts, stsc);
    joined(stsd + stts + stsc, stsz);
    joined(stsd + stts + stsc + stsz, stco);
    in_box(boxes::STBL, inner);
    assert(b == boxes::boxed(boxes::STBL, inner));
    assert(b.subrange(24, 24 + n) =~= entry) by {
        assert(b.subrange(24, 24 + n) =~= b.skip(8).subrange(16, 16 + n));
        assert(inner.subrange(16, 16 + n) =~= stsd.subrange(16, 16 + n));
        assert(stsd.subrange(16, 16 + n) =~= stsd.skip(12).skip(4));
        assert((bytes::be32(1) + entry).skip(4) =~= entry);
    }
    assert forall|at: int| #![trigger word(b, at)] 8 <= at && at + 4 <= 24 + n implies word(b, at)
        == word(stsd, at - 8) by {
        assert(word(b, at) == word(inner, at - 8));
        assert(word(inner, at - 8) == word(stsd + stts + stsc + stsz, at - 8));
        assert(word(stsd + stts + stsc + stsz, at - 8) == word(stsd + stts + stsc, at - 8));
        assert(word(stsd + stts + stsc, at - 8) == word(stsd + stts, at - 8));
    }
    assert forall|at: int|
        #![trigger word(b, at)]
        24 + n <= at && at + 4 <= 40 + n implies word(b, at) == word(stts, at - 24 - n) by {
        assert(word(b, at) == word(inner, at - 8));
        assert(word(inner, at - 8) == word(stsd + stts + stsc + stsz, at - 8));
        assert(word(stsd + stts + stsc + stsz, at - 8) == word(stsd + stts + stsc, at - 8));
        assert(word(stsd + stts + stsc, at - 8) == word(stsd + stts, at - 8));
    }
    assert forall|at: int|
        #![trigger word(b, at)]
        40 + n <= at && at + 4 <= 56 + n implies word(b, at) == word(stsc, at - 40 - n) by {
        assert(word(b, at) == word(inner, at - 8));
        assert(word(inner, at - 8) == word(stsd + stts + stsc + stsz, at - 8));
        assert(word(stsd + stts + stsc + stsz, at - 8) == word(stsd + stts + stsc, at - 8));
    }
    assert forall|at: int|
        #![trigger word(b, at)]
        56 + n <= at && at + 4 <= 76 + n implies word(b, at) == word(stsz, at - 56 - n) by {
        assert(word(b, at) == word(inner, at - 8));
        assert(word(inner, at - 8) == word(stsd + stts + stsc + stsz, at - 8));
    }
    assert forall|at: int|
        #![trigger word(b, at)]
        76 + n <= at && at + 4 <= 92 + n implies word(b, at) == word(stco, at - 76 - n) by {
        assert(word(b, at) == word(inner, at - 8));
    }
    assert(word(stsd, 12) == word(bytes::be32(1) + entry, 0));
}

#[verifier::spinoff_prover]
#[verifier::rlimit(40)]
proof fn in_minf(header: Seq<u8>, entry: Seq<u8>)
    requires
        136 + header.len() + entry.len() <= u32::MAX,
    ensures
        ({
            let b = boxes::boxed(
                boxes::MINF,
                header + boxes::dinf_box() + boxes::stbl_box(entry),
            );
            let (h, n) = (header.len() as int, entry.len() as int);
            &&& b.len() == 136 + h + n
            &&& word(b, 0) == 136 + h + n && word(b, 4) == 0x6d69_6e66
            &&& b.subrange(8, 8 + h) == header
            &&& word(b, 8 + h) == 36 && word(b, 12 + h) == 0x6469_6e66
            &&& word(b, 16 + h) == 28 && word(b, 20 + h) == 0x6472_6566 && word(b, 24 + h) == 0
            &&& word(b, 28 + h) == 1
            &&& word(b, 32 + h) == 12 && word(b, 36 + h) == 0x7572_6c20 && word(b, 40 + h) == 1
            &&& word(b, 44 + h) == 92 + n && word(b, 48 + h) == 0x7374_626c
            &&& word(b, 56 + h) == 0x7374_7364 && word(b, 64 + h) == 1
            &&& b.subrange(68 + h, 68 + h + n) == entry
        }),
{
    let (h, n) = (header.len() as int, entry.len() as int);
    let none = Seq::<u8>::empty();
    let url = boxes::full_box(boxes::URL_, 0, 1, none);
    let dref = boxes::full_box(boxes::DREF, 0, 0, bytes::be32(1) + url);
    let dinf = boxes::dinf_box();
    let stbl = boxes::stbl_box(entry);
    let inner = header + dinf + stbl;
    let b = boxes::boxed(boxes::MINF, inner);
    one_word(1);
    in_full_box(boxes::URL_, 0, 1, none);
    joined(bytes::be32(1), url);
    in_full_box(boxes::DREF, 0, 0, bytes::be32(1) + url);
    in_box(boxes::DINF, dref);
    in_stbl(entry);
    joined(header, dinf);
    joined(header + dinf, stbl);
    in_box(boxes::MINF, inner);
    assert(dinf == boxes::boxed(boxes::DINF, dref));
    assert(word(dinf, 8) == word(dref, 0) && word(dinf, 12) == word(dref, 4) && word(dinf, 16)
        == word(dref, 8));
    assert(word(dinf, 20) == word(dref, 12) && word(dinf, 24) == word(dref, 16) && word(dinf, 28)
        == word(dref, 20) && word(dinf, 32) == word(dref, 24));
    assert(word(dref, 12) == word(bytes::be32(1) + url, 0) && word(dref, 16) == word(
        bytes::be32(1) + url,
        4,
    ) && word(dref, 20) == word(bytes::be32(1) + url, 8) && word(dref, 24) == word(
        bytes::be32(1) + url,
        12,
    ));
    assert forall|at: int|
        #![trigger word(b, at)]
        8 + h <= at && at + 4 <= 44 + h implies word(b, at) == word(dinf, at - 8 - h) by {
        assert(word(b, at) == word(inner, at - 8));
        assert(word(inner, at - 8) == word(header + dinf, at - 8));
    }
    assert forall|at: int|
        #![trigger word(b, at)]
        44 + h <= at && at + 4 <= 136 + h + n implies word(b, at) == word(stbl, at - 44 - h) by {
        assert(word(b, at) == word(inner, at - 8));
    }
    assert(b.subrange(8, 8 + h) =~= b.skip(8).subrange(0, h));
    assert(inner.subrange(0, h) =~= header);
    assert(b.subrange(68 + h, 68 + h + n) =~= b.skip(8).subrange(60 + h, 60 + h + n));
    assert(inner.subrange(60 + h, 60 + h + n) =~= stbl.subrange(24, 24 + n));
}

/// A reader of a track finds: its number, its size and its volume in its header; its clock; the kind
/// of media it carries; the media's own header; and its one sample entry.
#[verifier::spinoff_prover]
#[verifier::rlimit(40)]
pub proof fn tracks_read_back(
    track_id: u32,
    timescale: u32,
    handler: u32,
    header: Seq<u8>,
    entry: Seq<u8>,
    width: u32,
    height: u32,
    volume: u16,
)
    requires
        318 + header.len() + entry.len() <= u32::MAX,
    ensures
        ({
            let b = boxes::trak_box(
                track_id,
                timescale,
                handler,
                header,
                entry,
                width,
                height,
                volume,
            );
            let (h, n) = (header.len() as int, entry.len() as int);
            &&& b.len() == 318 + h + n
            &&& word(b, 0) == 318 + h + n && word(b, 4) == 0x7472_616b
            &&& word(b, 8) == 92 && word(b, 12) == 0x746b_6864 && word(b, 16) == 3
            &&& word(b, 28) == track_id && word(b, 36) == 0 && word(b, 52) == volume * 0x1_0000
            &&& word(b, 56) == 0x0001_0000 && word(b, 72) == 0x0001_0000 && word(b, 88)
                == 0x4000_0000
            &&& word(b, 92) == (width % 0x1_0000) * 0x1_0000
            &&& word(b, 96) == (height % 0x1_0000) * 0x1_0000
            &&& word(b, 100) == 218 + h + n && word(b, 104) == 0x6d64_6961
            &&& word(b, 108) == 32 && word(b, 112) == 0x6d64_6864 && word(b, 116) == 0
            &&& word(b, 128) == timescale && word(b, 132) == 0 && word(b, 136) == 0x55c4_0000
            &&& word(b, 140) == 42 && word(b, 144) == 0x6864_6c72 && word(b, 156) == handler
            &&& word(b, 182) == 136 + h + n && word(b, 186) == 0x6d69_6e66
            &&& b.subrange(190, 190 + h) == header
            &&& word(b, 190 + h) == 36 && word(b, 194 + h) == 0x6469_6e66
            &&& word(b, 226 + h) == 92 + n && word(b, 230 + h) == 0x7374_626c
            &&& word(b, 238 + h) == 0x7374_7364 && word(b, 246 + h) == 1
            &&& b.subrange(250 + h, 250 + h + n) == entry
        }),
{
    let (h, n) = (header.len() as int, entry.len() as int);
    let tkhd = boxes::tkhd_box(track_id, width, height, volume);
    let (mdhd, hdlr) = (boxes::mdhd_box(timescale), boxes::hdlr_box(handler));
    let minf = boxes::boxed(boxes::MINF, header + boxes::dinf_box() + boxes::stbl_box(entry));
    let media = mdhd + hdlr + minf;
    let mdia = boxes::boxed(boxes::MDIA, media);
    let b = boxes::trak_box(track_id, timescale, handler, header, entry, width, height, volume);
    in_tkhd(track_id, width, height, volume);
    in_mdhd(timescale);
    in_hdlr(handler);
    in_minf(header, entry);
    joined(mdhd, hdlr);
    joined(mdhd + hdlr, minf);
    in_box(boxes::MDIA, media);
    joined(tkhd, mdia);
    in_box(boxes::TRAK, tkhd + mdia);
    assert(b == boxes::boxed(boxes::TRAK, tkhd + mdia)) by {
        reveal(boxes::trak_box);
    }
    assert forall|at: int| #![trigger word(b, at)] 8 <= at && at + 4 <= 100 implies word(b, at)
        == word(tkhd, at - 8) by {
        assert(word(b, at) == word(tkhd + mdia, at - 8));
    }
    assert forall|at: int|
        #![trigger word(b, at)]
        100 <= at && at + 4 <= b.len() implies word(b, at) == word(mdia, at - 100) by {
        assert(word(b, at) == word(tkhd + mdia, at - 8));
    }
    assert forall|at: int|
        #![trigger word(b, at)]
        108 <= at && at + 4 <= 140 implies word(b, at) == word(mdhd, at - 108) by {
        assert(word(b, at) == word(mdia, at - 100));
        assert(word(mdia, at - 100) == word(media, at - 108));
        assert(word(media, at - 108) == word(mdhd + hdlr, at - 108));
    }
    assert forall|at: int|
        #![trigger word(b, at)]
        140 <= at && at + 4 <= 182 implies word(b, at) == word(hdlr, at - 140) by {
        assert(word(b, at) == word(mdia, at - 100));
        assert(word(mdia, at - 100) == word(media, at - 108));
        assert(word(media, at - 108) == word(mdhd + hdlr, at - 108));
    }
    assert forall|at: int|
        #![trigger word(b, at)]
        182 <= at && at + 4 <= b.len() implies word(b, at) == word(minf, at - 182) by {
        assert(word(b, at) == word(mdia, at - 100));
        assert(word(mdia, at - 100) == word(media, at - 108));
    }
    assert forall|k: int| 182 <= k < b.len() implies #[trigger] b[k] == minf[k - 182] by {
        assert(b[k] == b.skip(8)[k - 8]);
        assert((tkhd + mdia)[k - 8] == mdia[k - 100]);
        assert(mdia[k - 100] == mdia.skip(8)[k - 108]);
        assert(media[k - 108] == minf[k - 182]);
    }
    assert(b.subrange(190, 190 + h) =~= minf.subrange(8, 8 + h));
    assert(b.subrange(250 + h, 250 + h + n) =~= minf.subrange(68 + h, 68 + h + n));
}

#[verifier::spinoff_prover]
#[verifier::rlimit(40)]
proof fn in_mvhd(next_track: u32)
    ensures
        ({
            let b = mp4::mvhd_box(next_track);
            &&& b.len() == 108
            &&& word(b, 0) == 108 && word(b, 4) == 0x6d76_6864 && word(b, 8) == 0
            &&& word(b, 20) == 90_000 && word(b, 24) == 0
            &&& word(b, 28) == 0x0001_0000 && word(b, 32) == 0x0100_0000
            &&& word(b, 44) == 0x0001_0000 && word(b, 60) == 0x0001_0000 && word(b, 76)
                == 0x4000_0000
            &&& word(b, 104) == next_track
        }),
{
    reveal(word);
    reveal(mp4::mvhd_box);
    let p = bytes::zeros(8) + bytes::be32(boxes::TIMESCALE) + bytes::be32(0) + bytes::be32(
        0x0001_0000,
    ) + bytes::be16(0x0100) + bytes::zeros(10) + boxes::identity_matrix() + bytes::zeros(24)
        + bytes::be32(next_track);
    in_full_box(boxes::MVHD, 0, 0, p);
    let b = mp4::mvhd_box(next_track);
    assert(p.len() == 96);
    assert(word(b, 20) == word(p, 8));
    assert(word(b, 24) == word(p, 12));
    assert(word(b, 28) == word(p, 16));
    assert(word(b, 32) == word(p, 20));
    assert(word(b, 44) == word(p, 32));
    assert(word(b, 60) == word(p, 48));
    assert(word(b, 76) == word(p, 64));
    assert(word(b, 104) == word(p, 92));
}

proof fn in_trex(track_id: u32, duration: u32)
    ensures
        ({
            let b = boxes::trex_box(track_id, duration);
            &&& b.len() == 32
            &&& word(b, 0) == 32 && word(b, 4) == 0x7472_6578 && word(b, 8) == 0
            &&& word(b, 12) == track_id && word(b, 16) == 1 && word(b, 20) == duration
            &&& word(b, 24) == 0 && word(b, 28) == 0
        }),
{
    reveal(word);
    let p = bytes::be32(track_id) + bytes::be32(1) + bytes::be32(duration) + bytes::zeros(8);
    in_full_box(boxes::TREX, 0, 0, p);
    let b = boxes::trex_box(track_id, duration);
    assert(word(b, 12) == word(p, 0));
    assert(word(b, 16) == word(p, 4));
    assert(word(b, 20) == word(p, 8));
    assert(word(b, 24) == word(p, 12));
    assert(word(b, 28) == word(p, 16));
}

proof fn in_media_headers()
    ensures
        boxes::full_box(boxes::VMHD, 0, 1, bytes::zeros(8)).len() == 20,
        word(boxes::full_box(boxes::VMHD, 0, 1, bytes::zeros(8)), 4) == 0x766d_6864,
        word(boxes::full_box(boxes::VMHD, 0, 1, bytes::zeros(8)), 8) == 1,
        boxes::full_box(boxes::SMHD, 0, 0, bytes::zeros(4)).len() == 16,
        word(boxes::full_box(boxes::SMHD, 0, 0, bytes::zeros(4)), 4) == 0x736d_6864,
        word(boxes::full_box(boxes::SMHD, 0, 0, bytes::zeros(4)), 8) == 0,
{
    in_full_box(boxes::VMHD, 0, 1, bytes::zeros(8));
    in_full_box(boxes::SMHD, 0, 0, bytes::zeros(4));
}

/// The file type: what the file is, and what it can be read as.
#[verifier::spinoff_prover]
#[verifier::rlimit(40)]
pub proof fn file_types_read_back()
    ensures
        ({
            let f = mp4::ftyp_box();
            &&& f.len() == 36
            &&& word(f, 0) == 36 && word(f, 4) == 0x6674_7970
            &&& word(f, 8) == 0x6973_6f6d && word(f, 12) == 0x200
            &&& word(f, 16) == 0x6973_6f6d && word(f, 20) == 0x6973_6f35 && word(f, 24)
                == 0x6973_6f36 && word(f, 28) == 0x6176_6331 && word(f, 32) == 0x6d70_3431
        }),
{
    reveal(word);
    reveal(mp4::ftyp_box);
    let p = bytes::be32(boxes::ISOM) + bytes::be32(0x200) + bytes::be32(boxes::ISOM) + bytes::be32(
        boxes::ISO5,
    ) + bytes::be32(boxes::ISO6) + bytes::be32(boxes::AVC1) + bytes::be32(boxes::MP41);
    in_box(boxes::FTYP, p);
    let f = mp4::ftyp_box();
    assert(p.len() == 28);
    assert(word(f, 8) == word(p, 0));
    assert(word(f, 12) == word(p, 4));
    assert(word(f, 16) == word(p, 8));
    assert(word(f, 20) == word(p, 12));
    assert(word(f, 24) == word(p, 16));
    assert(word(f, 28) == word(p, 20));
    assert(word(f, 32) == word(p, 24));
}

/// The words a reader looks up in the video track of a movie, which starts at `t`.
pub open spec fn holds_video_track(m: Seq<u8>, t: int, entry: Seq<u8>, width: u32, height: u32)
    -> bool {
    &&& word(m, t) == 338 + entry.len() && word(m, t + 4) == 0x7472_616b
    &&& word(m, t + 28) == 1 && word(m, t + 52) == 0
    &&& word(m, t + 92) == (width % 0x1_0000) * 0x1_0000
    &&& word(m, t + 96) == (height % 0x1_0000) * 0x1_0000
    &&& word(m, t + 128) == 90_000 && word(m, t + 156) == 0x7669_6465
    &&& m.subrange(t + 270, t + 270 + entry.len()) == entry
}

/// The words a reader looks up in the audio track of a movie, which starts at `t`.
pub open spec fn holds_audio_track(m: Seq<u8>, t: int, entry: Seq<u8>) -> bool {
    &&& word(m, t) == 334 + entry.len() && word(m, t + 4) == 0x7472_616b
    &&& word(m, t + 28) == 2 && word(m, t + 52) == 0x0100_0000
    &&& word(m, t + 92) == 0 && word(m, t + 96) == 0
    &&& word(m, t + 128) == 48_000 && word(m, t + 156) == 0x736f_756e
    &&& m.subrange(t + 266, t + 266 + entry.len()) == entry
}

/// A reader of a movie without audio finds the clock, one video track with its size and its sample
/// entry, and that its samples come in fragments.
#[verifier::spinoff_prover]
#[verifier::rlimit(40)]
pub proof fn silent_movies_read_back(entry: Seq<u8>, width: u32, height: u32)
    requires
        896 + entry.len() <= u32::MAX,
    ensures
        ({
            let m = mp4::moov_box(entry, width, height, None);
            let x = 454 + entry.len() as int;
            &&& m.len() == x + 40
            &&& word(m, 0) == m.len() && word(m, 4) == 0x6d6f_6f76
            &&& word(m, 8) == 108 && word(m, 12) == 0x6d76_6864 && word(m, 28) == 90_000
            &&& word(m, 32) == 0 && word(m, 36) == 0x0001_0000 && word(m, 40) == 0x0100_0000
            &&& word(m, 52) == 0x0001_0000 && word(m, 68) == 0x0001_0000 && word(m, 84)
                == 0x4000_0000
            &&& word(m, 112) == 2
            &&& holds_video_track(m, 116, entry, width, height)
            &&& word(m, x) == 40 && word(m, x + 4) == 0x6d76_6578
            &&& word(m, x + 12) == 0x7472_6578 && word(m, x + 20) == 1 && word(m, x + 24) == 1
        }),
{
    let n = entry.len() as int;
    let mvhd = mp4::mvhd_box(2);
    let header = boxes::full_box(boxes::VMHD, 0, 1, bytes::zeros(8));
    let trak = mp4::video_trak(entry, width, height);
    let trex = boxes::trex_box(1, 0);
    let mvex = boxes::boxed(boxes::MVEX, trex);
    let inner = mvhd + trak + mvex;
    let m = mp4::moov_box(entry, width, height, None);
    in_mvhd(2);
    in_media_headers();
    tracks_read_back(1, 90_000, 0x7669_6465, header, entry, width, height, 0);
    in_trex(1, 0);
    in_box(boxes::MVEX, trex);
    joined(mvhd, trak);
    joined(mvhd + trak, mvex);
    in_box(boxes::MOOV, inner);
    assert(m == boxes::boxed(boxes::MOOV, inner)) by {
        reveal(mp4::moov_box);
    }
    assert forall|at: int| #![trigger word(m, at)] 8 <= at && at + 4 <= 116 implies word(m, at)
        == word(mvhd, at - 8) by {
        assert(word(m, at) == word(inner, at - 8));
        assert(word(inner, at - 8) == word(mvhd + trak, at - 8));
    }
    assert forall|at: int|
        #![trigger word(m, at)]
        116 <= at && at + 4 <= 454 + n implies word(m, at) == word(trak, at - 116) by {
        assert(word(m, at) == word(inner, at - 8));
        assert(word(inner, at - 8) == word(mvhd + trak, at - 8));
    }
    assert forall|at: int|
        #![trigger word(m, at)]
        454 + n <= at && at + 4 <= m.len() implies word(m, at) == word(mvex, at - 454 - n) by {
        assert(word(m, at) == word(inner, at - 8));
    }
    assert(m.subrange(386, 386 + n) =~= m.skip(8).subrange(378, 378 + n));
    assert(inner.subrange(378, 378 + n) =~= trak.subrange(270, 270 + n));
}

/// A reader of a movie with audio finds the clock, the video track and the audio track with their
/// sample entries, and that the samples of both come in fragments.
#[verifier::spinoff_prover]
#[verifier::rlimit(40)]
pub proof fn movies_read_back(entry: Seq<u8>, width: u32, height: u32, audio: Seq<u8>)
    requires
        896 + entry.len() + audio.len() <= u32::MAX,
    ensures
        ({
            let m = mp4::moov_box(entry, width, height, Some(audio));
            let a = 454 + entry.len() as int;
            let x = a + 334 + audio.len() as int;
            &&& m.len() == x + 72
            &&& word(m, 0) == m.len() && word(m, 4) == 0x6d6f_6f76
            &&& word(m, 8) == 108 && word(m, 12) == 0x6d76_6864 && word(m, 28) == 90_000
            &&& word(m, 32) == 0 && word(m, 36) == 0x0001_0000 && word(m, 40) == 0x0100_0000
            &&& word(m, 52) == 0x0001_0000 && word(m, 68) == 0x0001_0000 && word(m, 84)
                == 0x4000_0000
            &&& word(m, 112) == 3
            &&& holds_video_track(m, 116, entry, width, height)
            &&& holds_audio_track(m, a, audio)
            &&& word(m, x) == 72 && word(m, x + 4) == 0x6d76_6578
            &&& word(m, x + 12) == 0x7472_6578 && word(m, x + 20) == 1 && word(m, x + 24) == 1
            &&& word(m, x + 44) == 0x7472_6578 && word(m, x + 52) == 2 && word(m, x + 56) == 1
        }),
{
    let n = entry.len() as int;
    let l = audio.len() as int;
    let mvhd = mp4::mvhd_box(3);
    let header = boxes::full_box(boxes::VMHD, 0, 1, bytes::zeros(8));
    let sound = boxes::full_box(boxes::SMHD, 0, 0, bytes::zeros(4));
    let trak = mp4::video_trak(entry, width, height);
    let atrak = mp4::audio_trak(audio);
    let (one, two) = (boxes::trex_box(1, 0), boxes::trex_box(2, 0));
    let mvex = boxes::boxed(boxes::MVEX, one + two);
    let inner = mvhd + (trak + atrak) + mvex;
    let m = mp4::moov_box(entry, width, height, Some(audio));
    in_mvhd(3);
    in_media_headers();
    tracks_read_back(1, 90_000, 0x7669_6465, header, entry, width, height, 0);
    tracks_read_back(2, 48_000, 0x736f_756e, sound, audio, 0, 0, 0x0100);
    in_trex(1, 0);
    in_trex(2, 0);
    joined(one, two);
    in_box(boxes::MVEX, one + two);
    joined(trak, atrak);
    joined(mvhd, trak + atrak);
    joined(mvhd + (trak + atrak), mvex);
    in_box(boxes::MOOV, inner);
    assert(m == boxes::boxed(boxes::MOOV, inner)) by {
        reveal(mp4::moov_box);
    }
    assert forall|at: int| #![trigger word(m, at)] 8 <= at && at + 4 <= 116 implies word(m, at)
        == word(mvhd, at - 8) by {
        assert(word(m, at) == word(inner, at - 8));
        assert(word(inner, at - 8) == word(mvhd + (trak + atrak), at - 8));
    }
    assert forall|at: int|
        #![trigger word(m, at)]
        116 <= at && at + 4 <= 454 + n implies word(m, at) == word(trak, at - 116) by {
        assert(word(m, at) == word(inner, at - 8));
        assert(word(inner, at - 8) == word(mvhd + (trak + atrak), at - 8));
        assert(word(mvhd + (trak + atrak), at - 8) == word(trak + atrak, at - 116));
    }
    assert forall|at: int|
        #![trigger word(m, at)]
        454 + n <= at && at + 4 <= 788 + n + l implies word(m, at) == word(atrak, at - 454 - n) by {
        assert(word(m, at) == word(inner, at - 8));
        assert(word(inner, at - 8) == word(mvhd + (trak + atrak), at - 8));
        assert(word(mvhd + (trak + atrak), at - 8) == word(trak + atrak, at - 116));
    }
    assert forall|at: int|
        #![trigger word(m, at)]
        788 + n + l <= at && at + 4 <= m.len() implies word(m, at) == word(
        mvex,
        at - 788 - n - l,
    ) by {
        assert(word(m, at) == word(inner, at - 8));
    }
    assert(m.subrange(386, 386 + n) =~= m.skip(8).subrange(378, 378 + n));
    assert(inner.subrange(378, 378 + n) =~= trak.subrange(270, 270 + n));
    let a = 454 + n;
    assert(m.subrange(a + 266, a + 266 + l) =~= m.skip(8).subrange(a + 258, a + 258 + l));
    assert(inner.subrange(a + 258, a + 258 + l) =~= atrak.subrange(266, 266 + l));
}

/// A reader of a video sample entry finds the picture's size, and behind it the decoder record: the
/// profile, compatibility and level of the sequence parameter set, lengths of four bytes, and both
/// parameter sets whole, each behind its own length.
#[verifier::spinoff_prover]
#[verifier::rlimit(40)]
pub proof fn video_entries_read_back(sps: Seq<u8>, pps: Seq<u8>, width: u32, height: u32)
    requires
        4 <= sps.len() <= u16::MAX,
        pps.len() <= u16::MAX,
    ensures
        ({
            let e = mp4::avc1_entry(sps, pps, width, height);
            let n = sps.len() as int;
            &&& e.len() == 105 + sps.len() + pps.len()
            &&& word(e, 0) == e.len() && word(e, 4) == 0x6176_6331
            &&& word(e, 8) == 0 && word(e, 12) == 1
            &&& word(e, 32) == (width % 0x1_0000) * 0x1_0000 + height % 0x1_0000
            &&& word(e, 36) == 0x0048_0000 && word(e, 40) == 0x0048_0000 && word(e, 48)
                == 0x0001_0000 && word(e, 82) == 0x0018_ffff
            &&& word(e, 86) == e.len() - 86 && word(e, 90) == 0x6176_6343
            &&& e[94] == 1 && e[95] == sps[1] && e[96] == sps[2] && e[97] == sps[3]
            &&& e[98] == 0xff && e[99] == 0xe1
            &&& e[100] * 0x100 + e[101] == sps.len()
            &&& e.subrange(102, 102 + n) == sps
            &&& e[102 + n] == 1 && e[103 + n] * 0x100 + e[104 + n] == pps.len()
            &&& e.skip(105 + n) == pps
        }),
{
    let n = sps.len() as int;
    let record = seq![1u8, sps[1], sps[2], sps[3], 0xff, 0xe1] + bytes::be16(sps.len() as u16) + sps
        + seq![1u8] + bytes::be16(pps.len() as u16) + pps;
    let avcc = mp4::avcc_box(sps, pps);
    let (w, h) = (width as u16, height as u16);
    let p = bytes::zeros(6) + bytes::be16(1) + bytes::zeros(16) + bytes::be16(w) + bytes::be16(h)
        + bytes::be32(0x0048_0000) + bytes::be32(0x0048_0000) + bytes::zeros(4) + bytes::be16(1)
        + bytes::zeros(32) + bytes::be16(0x0018) + bytes::be16(0xffff);
    let e = mp4::avc1_entry(sps, pps, width, height);
    assert(width as u16 == width % 0x1_0000) by (bit_vector);
    assert(height as u16 == height % 0x1_0000) by (bit_vector);
    in_box(boxes::AVCC, record);
    assert(avcc == boxes::boxed(boxes::AVCC, record));
    assert(record.len() == 11 + sps.len() + pps.len());
    assert(p.len() == 78);
    joined(p, avcc);
    in_box(boxes::AVC1, p + avcc);
    assert(e == boxes::boxed(boxes::AVC1, p + avcc));
    assert(word(e, 86) == word(p + avcc, 78));
    assert(word(e, 90) == word(p + avcc, 82));
    assert(word(p, 0) == 0 && word(p, 4) == 1 && word(p, 24) == w * 0x1_0000 + h && word(p, 28)
        == 0x0048_0000 && word(p, 32) == 0x0048_0000 && word(p, 40) == 0x0001_0000 && word(p, 74)
        == 0x0018_ffff) by {
        reveal(word);
    }
    assert forall|at: int| #![trigger word(e, at)] 8 <= at && at + 4 <= 86 implies word(e, at)
        == word(p, at - 8) by {
        assert(word(e, at) == word(p + avcc, at - 8));
    }
    assert forall|k: int| 94 <= k < e.len() implies #[trigger] e[k] == record[k - 94] by {
        assert(e[k] == e.skip(8)[k - 8]);
        assert((p + avcc)[k - 8] == avcc[k - 86]);
        assert(avcc[k - 86] == avcc.skip(8)[k - 94]);
    }
    assert(e.subrange(102, 102 + n) =~= sps);
    assert(e.skip(105 + n) =~= pps);
}

#[verifier::spinoff_prover]
#[verifier::rlimit(40)]
proof fn in_dops(head: OpusHead)
    requires
        head.mapping@.len() <= 0x1_0000,
    ensures
        ({
            let b = mp4::dops_box(head);
            &&& b.len() == 19 + head.mapping@.len()
            &&& word(b, 0) == b.len() && word(b, 4) == 0x644f_7073
            &&& b[8] == 0 && b[9] == head.channels
            &&& b[10] * 0x100 + b[11] == head.pre_skip
            &&& word(b, 12) == head.input_sample_rate
            &&& b[16] * 0x100 + b[17] == head.output_gain as u16
            &&& b[18] == head.mapping_family
            &&& b.skip(19) == head.mapping@
        }),
{
    let gain = head.output_gain as u16;
    let record = seq![0u8, head.channels] + bytes::be16(head.pre_skip) + bytes::be32(
        head.input_sample_rate,
    ) + bytes::be16(gain) + seq![head.mapping_family] + head.mapping@;
    let b = mp4::dops_box(head);
    in_box(boxes::DOPS, record);
    assert(b == boxes::boxed(boxes::DOPS, record));
    assert(word(record, 4) == head.input_sample_rate) by {
        reveal(word);
    }
    assert forall|k: int| 8 <= k < b.len() implies #[trigger] b[k] == record[k - 8] by {
        assert(b[k] == b.skip(8)[k - 8]);
    }
    assert(b.skip(19) =~= head.mapping@);
}

#[verifier::spinoff_prover]
#[verifier::rlimit(40)]
proof fn in_opus(channels: u16, record: Seq<u8>)
    requires
        record.len() <= 0x2_0000,
    ensures
        ({
            let e = boxes::boxed(
                boxes::OPUS,
                bytes::zeros(6) + bytes::be16(1) + bytes::zeros(8) + bytes::be16(channels)
                    + bytes::be16(16) + bytes::zeros(4) + bytes::be32(0xbb80_0000) + record,
            );
            &&& e.len() == 36 + record.len()
            &&& word(e, 0) == e.len() && word(e, 4) == 0x4f70_7573
            &&& word(e, 8) == 0 && word(e, 12) == 1
            &&& word(e, 24) == channels * 0x1_0000 + 16
            &&& word(e, 32) == 48_000 * 0x1_0000
            &&& e.skip(36) == record
            &&& forall|at: int|
                #![trigger word(e, at)]
                36 <= at && at + 4 <= e.len() ==> word(e, at) == word(record, at - 36)
        }),
{
    let p = bytes::zeros(6) + bytes::be16(1) + bytes::zeros(8) + bytes::be16(channels)
        + bytes::be16(16) + bytes::zeros(4) + bytes::be32(0xbb80_0000);
    let e = boxes::boxed(boxes::OPUS, p + record);
    assert(p.len() == 28);
    assert(word(p, 0) == 0 && word(p, 4) == 1 && word(p, 16) == channels * 0x1_0000 + 16 && word(
        p,
        24,
    ) == 0xbb80_0000) by {
        reveal(word);
    }
    joined(p, record);
    in_box(boxes::OPUS, p + record);
    assert(word(e, 8) == word(p + record, 0));
    assert(word(e, 12) == word(p + record, 4));
    assert(word(e, 24) == word(p + record, 16));
    assert(word(e, 32) == word(p + record, 24));
    assert(e.skip(36) =~= e.skip(8).skip(28));
    assert((p + record).skip(28) =~= record);
    assert forall|at: int|
        #![trigger word(e, at)]
        36 <= at && at + 4 <= e.len() implies word(e, at) == word(record, at - 36) by {
        assert(word(e, at) == word(p + record, at - 8));
    }
}

/// A reader of an audio sample entry finds the channels, sixteen bits a sample and the 48 kHz clock,
/// and behind them the decoder record: the head's channels, pre-skip, rate, gain and mapping.
#[verifier::spinoff_prover]
#[verifier::rlimit(40)]
pub proof fn audio_entries_read_back(head: OpusHead)
    requires
        head.mapping@.len() <= 0x1_0000,
    ensures
        ({
            let e = mp4::opus_entry(head);
            &&& e.len() == 55 + head.mapping@.len()
            &&& word(e, 0) == e.len() && word(e, 4) == 0x4f70_7573
            &&& word(e, 8) == 0 && word(e, 12) == 1
            &&& word(e, 24) == head.channels * 0x1_0000 + 16
            &&& word(e, 32) == 48_000 * 0x1_0000
            &&& word(e, 36) == e.len() - 36 && word(e, 40) == 0x644f_7073
            &&& e[44] == 0 && e[45] == head.channels
            &&& e[46] * 0x100 + e[47] == head.pre_skip
            &&& word(e, 48) == head.input_sample_rate
            &&& e[52] * 0x100 + e[53] == head.output_gain as u16
            &&& e[54] == head.mapping_family
            &&& e.skip(55) == head.mapping@
        }),
{
    let record = mp4::dops_box(head);
    let e = mp4::opus_entry(head);
    in_dops(head);
    in_opus(head.channels as u16, record);
    assert(word(e, 36) == word(record, 0));
    assert(word(e, 40) == word(record, 4));
    assert(word(e, 48) == word(record, 12));
    assert forall|k: int| 36 <= k < e.len() implies #[trigger] e[k] == record[k - 36] by {
        assert(e[k] == e.skip(36)[k - 36]);
    }
    assert(e.skip(55) =~= record.skip(19));
}

} // verus!
