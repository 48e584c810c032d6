//! What holds of every file the muxer writes.

use vstd::prelude::*;
use crate::bytes;
use super::boxes;
use super::mp4;
use super::mp4::{MuxView, SampleView};

verus! {

/// A byte string made of boxes, one behind another, whose size fields add up to its length.
pub open spec fn is_tiled(s: Seq<u8>) -> bool
    decreases s.len(),
{
    s.len() == 0 || (s.len() >= 8 && {
        let size = bytes::be32_at(s, 0) as int;
        8 <= size <= s.len() && is_tiled(s.skip(size))
    })
}

/// A box whose size fits its size field tiles.
pub proof fn box_tiles(fourcc: u32, payload: Seq<u8>)
    requires
        8 + payload.len() <= u32::MAX,
    ensures
        is_tiled(boxes::boxed(fourcc, payload)),
{
    let b = boxes::boxed(fourcc, payload);
    let size = (8 + payload.len()) as u32;
    bytes::be32_reads_back(size);
    assert(b[0] == bytes::be32(size)[0] && b[1] == bytes::be32(size)[1] && b[2] == bytes::be32(
        size,
    )[2] && b[3] == bytes::be32(size)[3]);
    assert(bytes::be32_at(b, 0) == size);
    assert(b.skip(b.len() as int) =~= seq![]);
    reveal_with_fuel(is_tiled, 2);
}

/// Tiled byte strings one behind another tile.
pub proof fn tiles_join(a: Seq<u8>, b: Seq<u8>)
    requires
        is_tiled(a),
        is_tiled(b),
    ensures
        is_tiled(a + b),
    decreases a.len(),
{
    let s = a + b;
    if a.len() == 0 {
        assert(s =~= b);
    } else {
        let size = bytes::be32_at(a, 0) as int;
        assert(s[0] == a[0] && s[1] == a[1] && s[2] == a[2] && s[3] == a[3]);
        assert(bytes::be32_at(s, 0) == size);
        tiles_join(a.skip(size), b);
        assert(s.skip(size) =~= a.skip(size) + b);
    }
}

/// The init segment keeps the output made of whole boxes.
pub proof fn init_keeps_tiling(v: MuxView, entry: Seq<u8>, width: u32, height: u32)
    requires
        is_tiled(v.out),
        896 + entry.len() + (match v.audio {
            None => 0,
            Some(a) => a.len(),
        }) <= u32::MAX,
    ensures
        is_tiled(v.with_init(entry, width, height).out),
{
    let ftyp = mp4::ftyp_box();
    let moov = mp4::moov_box(entry, width, height, v.audio);
    mp4::moov_length(entry, width, height, v.audio);
    assert(is_tiled(ftyp)) by {
        reveal(mp4::ftyp_box);
        box_tiles(
            boxes::FTYP,
            bytes::be32(boxes::ISOM) + bytes::be32(0x200) + bytes::be32(boxes::ISOM) + bytes::be32(
                boxes::ISO5,
            ) + bytes::be32(boxes::ISO6) + bytes::be32(boxes::AVC1) + bytes::be32(boxes::MP41),
        );
    }
    assert(is_tiled(moov)) by {
        reveal(mp4::moov_box);
        box_tiles(boxes::MOOV, mp4::moov_payload(entry, width, height, v.audio));
    }
    tiles_join(ftyp, moov);
    tiles_join(v.out, ftyp + moov);
}

proof fn moof_tiles(seq: u32, tfhd: Seq<u8>, dts: u64, trun: Seq<u8>)
    requires
        mp4::moof_box(seq, tfhd, dts, trun).len() <= u32::MAX,
    ensures
        is_tiled(mp4::moof_box(seq, tfhd, dts, trun)),
{
    box_tiles(
        boxes::MOOF,
        boxes::full_box(boxes::MFHD, 0, 0, bytes::be32(seq)) + boxes::boxed(
            boxes::TRAF,
            tfhd + boxes::full_box(boxes::TFDT, 1, 0, bytes::be64(dts)) + trun,
        ),
    );
}

/// The run stands at the end of a fragment's header.
proof fn run_closes_moof(seq: u32, tfhd: Seq<u8>, dts: u64, trun: Seq<u8>)
    ensures
        mp4::moof_box(seq, tfhd, dts, trun).len() == 52 + tfhd.len() + trun.len(),
        mp4::moof_box(seq, tfhd, dts, trun).skip(52 + tfhd.len() as int) == trun,
{
    let mfhd = boxes::full_box(boxes::MFHD, 0, 0, bytes::be32(seq));
    let tfdt = boxes::full_box(boxes::TFDT, 1, 0, bytes::be64(dts));
    assert(mfhd.len() == 16);
    assert(tfdt.len() == 20);
    assert(mp4::moof_box(seq, tfhd, dts, trun).skip(52 + tfhd.len() as int) =~= trun);
}

/// The second field of a run's payload stands 16 bytes into the run.
proof fn run_field(flags: u32, first: u32, second: u32, rest: Seq<u8>)
    ensures
        boxes::full_box(
            boxes::TRUN,
            0,
            flags,
            bytes::be32(first) + bytes::be32(second) + rest,
        ).subrange(16, 20) == bytes::be32(second),
{
    let payload = bytes::be32(first) + bytes::be32(second) + rest;
    let run = boxes::full_box(boxes::TRUN, 0, flags, payload);
    assert(run.skip(12) =~= payload);
    assert(run.subrange(16, 20) =~= payload.subrange(4, 8));
    assert(payload.subrange(4, 8) =~= bytes::be32(second));
}

#[verifier::opaque]
spec fn audio_tfhd() -> Seq<u8> {
    boxes::full_box(boxes::TFHD, 0, 0x02_0020, bytes::be32(2) + bytes::be32(0x0200_0000))
}

#[verifier::opaque]
spec fn audio_trun(packets: Seq<(Seq<u8>, u32)>) -> Seq<u8> {
    boxes::full_box(
        boxes::TRUN,
        0,
        0x00_0301,
        bytes::be32(packets.len() as u32) + bytes::be32((100 + 8 * packets.len()) as u32)
            + mp4::audio_runs(packets),
    )
}

proof fn audio_moof_parts(seq: u32, dts: u64, packets: Seq<(Seq<u8>, u32)>)
    ensures
        mp4::audio_moof(seq, dts, packets) == mp4::moof_box(
            seq,
            audio_tfhd(),
            dts,
            audio_trun(packets),
        ),
{
    reveal(mp4::audio_moof);
    reveal(audio_tfhd);
    reveal(audio_trun);
}

proof fn audio_tfhd_length()
    ensures
        audio_tfhd().len() == 20,
{
    reveal(audio_tfhd);
}

proof fn audio_run_field(packets: Seq<(Seq<u8>, u32)>, count: u32, offset: u32)
    requires
        count == packets.len(),
        offset == 100 + 8 * packets.len(),
    ensures
        audio_trun(packets).len() >= 20,
        audio_trun(packets).subrange(16, 20) == bytes::be32(offset),
{
    let runs = mp4::audio_runs(packets);
    run_field(0x00_0301, count, offset, runs);
    assert(audio_trun(packets) == boxes::full_box(
        boxes::TRUN,
        0,
        0x00_0301,
        bytes::be32(count) + bytes::be32(offset) + runs,
    )) by {
        reveal(audio_trun);
    }
}

#[verifier::opaque]
spec fn video_tfhd() -> Seq<u8> {
    boxes::full_box(boxes::TFHD, 0, 0x02_0000, bytes::be32(1))
}

spec fn video_run(duration: u32, size: u32, sync: bool) -> Seq<u8> {
    bytes::be32(duration) + bytes::be32(size) + bytes::be32(mp4::sample_flags(sync))
}

#[verifier::opaque]
spec fn video_trun(duration: u32, size: u32, sync: bool) -> Seq<u8> {
    boxes::full_box(
        boxes::TRUN,
        0,
        0x00_0701,
        bytes::be32(1) + bytes::be32(108) + video_run(duration, size, sync),
    )
}

proof fn video_moof_parts(seq: u32, dts: u64, sync: bool, duration: u32, size: u32)
    ensures
        mp4::video_moof(seq, dts, sync, duration, size) == mp4::moof_box(
            seq,
            video_tfhd(),
            dts,
            video_trun(duration, size, sync),
        ),
        video_tfhd().len() == 16,
{
    reveal(mp4::video_moof);
    reveal(video_tfhd);
    reveal(video_trun);
    assert(bytes::be32(1) + bytes::be32(108) + video_run(duration, size, sync) =~= bytes::be32(1)
        + bytes::be32(108) + bytes::be32(duration) + bytes::be32(size) + bytes::be32(
        mp4::sample_flags(sync),
    ));
}

proof fn video_run_field(duration: u32, size: u32, sync: bool)
    ensures
        video_trun(duration, size, sync).len() >= 20,
        video_trun(duration, size, sync).subrange(16, 20) == bytes::be32(108),
{
    let rest = video_run(duration, size, sync);
    run_field(0x00_0701, 1, 108, rest);
    assert(video_trun(duration, size, sync) == boxes::full_box(
        boxes::TRUN,
        0,
        0x00_0701,
        bytes::be32(1) + bytes::be32(108) + rest,
    )) by {
        reveal(video_trun);
    }
}

/// A video fragment is made of whole boxes.
pub proof fn video_fragment_tiles(seq: u32, s: SampleView, duration: u32)
    requires
        8 + s.data.len() <= u32::MAX,
    ensures
        is_tiled(mp4::video_fragment(seq, s, duration)),
{
    let moof = mp4::video_moof(seq, s.dts, s.sync, duration, s.data.len() as u32);
    mp4::moof_lengths(seq, s.dts, s.sync, duration, s.data.len() as u32);
    assert(is_tiled(moof)) by {
        let size = s.data.len() as u32;
        video_moof_parts(seq, s.dts, s.sync, duration, size);
        moof_tiles(seq, video_tfhd(), s.dts, video_trun(duration, size, s.sync));
    }
    box_tiles(boxes::MDAT, s.data);
    tiles_join(moof, boxes::boxed(boxes::MDAT, s.data));
}

/// Writing a video sample keeps the output made of whole boxes.
pub proof fn video_keeps_tiling(v: MuxView, s: SampleView, duration: u32)
    requires
        is_tiled(v.out),
        8 + s.data.len() <= u32::MAX,
    ensures
        is_tiled(v.with_video(s, duration).out),
{
    let seq = (v.seq + 1) as u32;
    video_fragment_tiles(seq, s, duration);
    tiles_join(v.out, mp4::video_fragment(seq, s, duration));
}

/// An audio fragment is made of whole boxes.
pub proof fn audio_fragment_tiles(seq: u32, dts: u64, packets: Seq<(Seq<u8>, u32)>)
    requires
        packets.len() <= mp4::AUDIO_FLUSH_SAMPLES,
        8 + mp4::audio_data(packets).len() <= u32::MAX,
    ensures
        is_tiled(mp4::audio_fragment(seq, dts, packets)),
{
    let moof = mp4::audio_moof(seq, dts, packets);
    let data = mp4::audio_data(packets);
    mp4::audio_moof_length(seq, dts, packets);
    assert(is_tiled(moof)) by {
        audio_moof_parts(seq, dts, packets);
        moof_tiles(seq, audio_tfhd(), dts, audio_trun(packets));
    }
    box_tiles(boxes::MDAT, data);
    tiles_join(moof, boxes::boxed(boxes::MDAT, data));
}

/// Writing the audio packets held back keeps the output made of whole boxes.
pub proof fn audio_keeps_tiling(v: MuxView)
    requires
        is_tiled(v.out),
        v.audio_pending.len() <= mp4::AUDIO_FLUSH_SAMPLES,
        8 + mp4::audio_data(v.audio_pending).len() <= u32::MAX,
    ensures
        is_tiled(v.with_audio_flushed().out),
{
    if v.audio_pending.len() > 0 {
        let seq = (v.seq + 1) as u32;
        audio_fragment_tiles(seq, v.audio_batch_dts, v.audio_pending);
        tiles_join(v.out, mp4::audio_fragment(seq, v.audio_batch_dts, v.audio_pending));
    }
}

/// A sample that arrives, and the file being closed, keep the output made of whole boxes as long
/// as each payload fits a 32-bit size: a file cut at any fragment still parses.
pub proof fn file_keeps_tiling(v: MuxView, data: Seq<u8>, sync: bool, pts_us: u64)
    requires
        v.wf(),
        is_tiled(v.out),
        v.pending matches Some(s) ==> 8 + s.data.len() <= u32::MAX,
        8 + mp4::audio_data(v.audio_pending).len() <= u32::MAX,
    ensures
        is_tiled(v.with_sample(data, sync, pts_us).out),
        is_tiled(v.closed_file().out),
{
    match v.pending {
        None => {},
        Some(prev) => {
            let duration = mp4::duration_between(prev.dts, mp4::decode_time(pts_us, v.last_dts));
            video_keeps_tiling(
                MuxView { durations: v.durations.push(duration), ..v },
                prev,
                duration,
            );
        },
    }
    audio_keeps_tiling(v);
    let flushed = v.with_audio_flushed();
    match flushed.pending {
        None => {},
        Some(s) => {
            video_keeps_tiling(
                MuxView { pending: None, ..flushed },
                s,
                mp4::median(flushed.durations),
            );
        },
    }
}

/// Decode times only ever increase, and the duration a sample is written with is at least one
/// tick, whatever timestamps come in.
pub proof fn decode_times_increase(v: MuxView, data: Seq<u8>, sync: bool, pts_us: u64)
    requires
        v.wf(),
        v.timeable(pts_us),
    ensures
        v.with_sample(data, sync, pts_us).last_dts is Some,
        v.last_dts matches Some(t) ==> v.with_sample(data, sync, pts_us).last_dts.unwrap() > t,
        v.pending is Some ==> {
            let w = v.with_sample(data, sync, pts_us);
            w.durations == v.durations.push(w.durations.last()) && w.durations.last() >= 1
        },
{
}

/// A timestamp ahead of the last one is carried exactly, to the tick.
pub proof fn ordered_times_are_kept(v: MuxView, data: Seq<u8>, sync: bool, pts_us: u64)
    requires
        pts_us <= mp4::MAX_PTS_US,
        v.last_dts matches Some(t) ==> pts_us * 90 / 1000 > t,
    ensures
        v.with_sample(data, sync, pts_us).pending.unwrap().dts == pts_us * 90 / 1000,
{
}

/// The byte counter grows by exactly what is written.
pub proof fn bytes_count_the_output(
    v: MuxView,
    entry: Seq<u8>,
    width: u32,
    height: u32,
    data: Seq<u8>,
    sync: bool,
    pts_us: u64,
)
    requires
        v.wf(),
        v.committed() + 896 + entry.len() + (match v.audio {
            None => 0,
            Some(a) => a.len(),
        }) <= u64::MAX,
    ensures
        v.with_init(entry, width, height).stats.bytes - v.stats.bytes == v.with_init(
            entry,
            width,
            height,
        ).out.len() - v.out.len(),
        v.with_sample(data, sync, pts_us).stats.bytes - v.stats.bytes == v.with_sample(
            data,
            sync,
            pts_us,
        ).out.len() - v.out.len(),
        v.with_audio_flushed().stats.bytes - v.stats.bytes == v.with_audio_flushed().out.len()
            - v.out.len(),
        v.closed_file().stats.bytes - v.stats.bytes == v.closed_file().out.len() - v.out.len(),
{
    mp4::moov_length(entry, width, height, v.audio);
    let seq = (v.seq + 1) as u32;
    match v.pending {
        None => {},
        Some(prev) => {
            let duration = mp4::duration_between(prev.dts, mp4::decode_time(pts_us, v.last_dts));
            mp4::video_fragment_length(seq, prev, duration);
        },
    }
    mp4::audio_fragment_length(seq, v.audio_batch_dts, v.audio_pending);
    let flushed = v.with_audio_flushed();
    match flushed.pending {
        None => {},
        Some(s) => {
            mp4::video_fragment_length(
                (flushed.seq + 1) as u32,
                s,
                mp4::median(flushed.durations),
            );
        },
    }
}

/// A video fragment's run points at its sample: the offset it states is where the sample's bytes
/// stand, counted from the fragment's start.
pub proof fn video_offset_points_at_the_sample(seq: u32, s: SampleView, duration: u32)
    ensures
        bytes::be32_at(mp4::video_fragment(seq, s, duration), 84) == 108,
        mp4::video_fragment(seq, s, duration).subrange(108, 108 + s.data.len() as int) == s.data,
{
    let size = s.data.len() as u32;
    let f = mp4::video_fragment(seq, s, duration);
    let moof = mp4::video_moof(seq, s.dts, s.sync, duration, size);
    mp4::moof_lengths(seq, s.dts, s.sync, duration, size);
    bytes::be32_reads_back(108);
    assert(moof.subrange(84, 88) == bytes::be32(108)) by {
        video_moof_parts(seq, s.dts, s.sync, duration, size);
        video_run_field(duration, size, s.sync);
        run_closes_moof(seq, video_tfhd(), s.dts, video_trun(duration, size, s.sync));
        assert(moof.subrange(84, 88) =~= moof.skip(68).subrange(16, 20));
    }
    assert(f[84] == moof.subrange(84, 88)[0] && f[85] == moof.subrange(84, 88)[1] && f[86]
        == moof.subrange(84, 88)[2] && f[87] == moof.subrange(84, 88)[3]);
    assert(f.subrange(108, 108 + s.data.len() as int) =~= s.data);
}

/// An audio fragment's run points at its packets.
pub proof fn audio_offset_points_at_the_packets(seq: u32, dts: u64, packets: Seq<(Seq<u8>, u32)>)
    requires
        packets.len() <= mp4::AUDIO_FLUSH_SAMPLES,
    ensures
        bytes::be32_at(mp4::audio_fragment(seq, dts, packets), 88) == 100 + 8 * packets.len(),
        mp4::audio_fragment(seq, dts, packets).skip((100 + 8 * packets.len()) as int)
            == mp4::audio_data(packets),
{
    let f = mp4::audio_fragment(seq, dts, packets);
    let moof = mp4::audio_moof(seq, dts, packets);
    let offset = (100 + 8 * packets.len()) as u32;
    mp4::audio_moof_length(seq, dts, packets);
    bytes::be32_reads_back(offset);
    assert(moof.subrange(88, 92) == bytes::be32(offset)) by {
        audio_moof_parts(seq, dts, packets);
        audio_tfhd_length();
        audio_run_field(packets, packets.len() as u32, offset);
        run_closes_moof(seq, audio_tfhd(), dts, audio_trun(packets));
        assert(moof.subrange(88, 92) =~= moof.skip(72).subrange(16, 20));
    }
    assert(f[88] == moof.subrange(88, 92)[0] && f[89] == moof.subrange(88, 92)[1] && f[90]
        == moof.subrange(88, 92)[2] && f[91] == moof.subrange(88, 92)[3]);
    assert(f.skip((100 + 8 * packets.len()) as int) =~= mp4::audio_data(packets));
}

/// The reported duration never goes back.
pub proof fn duration_never_shrinks(v: MuxView, data: Seq<u8>, sync: bool, pts_us: u64)
    requires
        v.wf(),
        v.timeable(pts_us),
    ensures
        v.with_sample(data, sync, pts_us).stats.duration_us >= v.stats.duration_us,
        v.with_audio_flushed().stats.duration_us >= v.stats.duration_us,
        v.closed_file().stats.duration_us >= v.stats.duration_us,
{
}

/// The median closing the last sample is a duration that was observed.
pub proof fn median_was_observed(durations: Seq<u32>)
    requires
        durations.len() > 0,
    ensures
        durations.contains(mp4::median(durations)),
{
    let sorted = durations.sort_by(mp4::at_most());
    durations.lemma_sort_by_ensures(mp4::at_most());
    sorted.to_multiset_ensures();
    durations.to_multiset_ensures();
    let m = sorted[durations.len() as int / 2];
    assert(sorted.contains(m));
    assert(sorted.to_multiset().count(m) > 0);
    assert(durations.to_multiset().count(m) > 0);
}

/// The NAL units a length-prefixed sample holds, read from its front.
pub open spec fn avcc_units(data: Seq<u8>) -> Seq<Seq<u8>>
    decreases data.len(),
{
    if data.len() < 4 {
        seq![]
    } else {
        let n = bytes::be32_at(data, 0) as int;
        if data.len() < 4 + n {
            seq![]
        } else {
            seq![data.subrange(4, 4 + n)] + avcc_units(data.skip(4 + n))
        }
    }
}

/// A built sample reads back as the NAL units it was built from.
pub proof fn samples_read_back(nals: Seq<Seq<u8>>)
    requires
        forall|i: int| 0 <= i < nals.len() ==> (#[trigger] nals[i]).len() <= u32::MAX,
    ensures
        avcc_units(mp4::avcc_sample(nals)) == nals,
    decreases nals.len(),
{
    if nals.len() == 0 {
        assert(avcc_units(mp4::avcc_sample(nals)) =~= nals);
    } else {
        let rest = nals.drop_first();
        sample_front(nals);
        let head = bytes::be32(nals[0].len() as u32) + nals[0];
        let data = mp4::avcc_sample(nals);
        bytes::be32_reads_back(nals[0].len() as u32);
        assert(data =~= head + mp4::avcc_sample(rest));
        let len = bytes::be32(nals[0].len() as u32);
        assert(data[0] == len[0] && data[1] == len[1] && data[2] == len[2] && data[3] == len[3]);
        assert(data.subrange(4, 4 + nals[0].len() as int) =~= nals[0]);
        assert(data.skip(4 + nals[0].len() as int) =~= mp4::avcc_sample(rest));
        assert forall|i: int| 0 <= i < rest.len() implies (#[trigger] rest[i]).len()
            <= u32::MAX by {
            assert(rest[i] == nals[i + 1]);
        }
        samples_read_back(rest);
        assert(seq![nals[0]] + rest =~= nals);
    }
}

proof fn sample_front(nals: Seq<Seq<u8>>)
    requires
        nals.len() > 0,
    ensures
        mp4::avcc_sample(nals) == bytes::be32(nals[0].len() as u32) + nals[0] + mp4::avcc_sample(
            nals.drop_first(),
        ),
    decreases nals.len(),
{
    let head = bytes::be32(nals[0].len() as u32) + nals[0];
    if nals.len() == 1 {
        assert(nals.drop_last() =~= seq![]);
        assert(nals.drop_first() =~= seq![]);
        assert(mp4::avcc_sample(nals) =~= head + mp4::avcc_sample(nals.drop_first()));
    } else {
        sample_front(nals.drop_last());
        assert(nals.drop_last().drop_first() =~= nals.drop_first().drop_last());
        assert(mp4::avcc_sample(nals) =~= head + mp4::avcc_sample(nals.drop_first()));
    }
}

} // verus!
