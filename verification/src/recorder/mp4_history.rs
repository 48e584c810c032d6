//! What a file holds after any run of calls on its writer: every sample and every packet that was
//! given, once and in order, and counters that are the totals of the run.

use vstd::prelude::*;
use super::mp4;
use super::mp4::{MuxView, PacketView, SampleView};
use super::mp4_laws;

verus! {

/// One call on a writer.
pub enum Call {
    Init { entry: Seq<u8>, width: u32, height: u32 },
    Sample { data: Seq<u8>, sync: bool, pts_us: u64 },
    Packet { data: Seq<u8>, dts: u64 },
    /// What was written is handed over.
    Take,
}

/// A call that the writer's counters have room for.
pub open spec fn fits(v: MuxView, c: Call) -> bool {
    match c {
        Call::Init { entry, .. } => v.committed() + 896 + entry.len() + (match v.audio {
            None => 0,
            Some(a) => a.len(),
        }) <= u64::MAX,
        Call::Sample { data, pts_us, .. } => {
            &&& v.timeable(pts_us)
            &&& v.fragments() < u32::MAX
            &&& v.committed() + 108 + data.len() <= u64::MAX
        },
        Call::Packet { data, dts } => {
            &&& dts + mp4::opus_samples(data) <= mp4::MAX_AUDIO_TICKS
            &&& v.fragments() < u32::MAX
            &&& v.committed() + 108 + data.len() <= u64::MAX
        },
        Call::Take => true,
    }
}

/// A writer after a call.
pub open spec fn after(v: MuxView, c: Call) -> MuxView {
    match c {
        Call::Init { entry, width, height } => v.with_init(entry, width, height),
        Call::Sample { data, sync, pts_us } => v.with_sample(data, sync, pts_us),
        Call::Packet { data, dts } => v.with_packet(data, dts),
        Call::Take => MuxView { out: seq![], ..v },
    }
}

/// The writer of a run of calls, with the audio track declared or not.
pub open spec fn writer(audio: Option<Seq<u8>>, calls: Seq<Call>) -> MuxView
    decreases calls.len(),
{
    if calls.len() == 0 {
        MuxView { audio, ..MuxView::fresh() }
    } else {
        after(writer(audio, calls.drop_last()), calls.last())
    }
}

/// The writer's counters have room for every call of a run.
pub open spec fn admitted(audio: Option<Seq<u8>>, calls: Seq<Call>) -> bool
    decreases calls.len(),
{
    calls.len() == 0 || (admitted(audio, calls.drop_last()) && fits(
        writer(audio, calls.drop_last()),
        calls.last(),
    ))
}

/// What a run of calls handed over.
pub open spec fn taken(audio: Option<Seq<u8>>, calls: Seq<Call>) -> Seq<u8>
    decreases calls.len(),
{
    if calls.len() == 0 {
        seq![]
    } else {
        let before = taken(audio, calls.drop_last());
        if calls.last() is Take {
            before + writer(audio, calls.drop_last()).out
        } else {
            before
        }
    }
}

/// The decode time of the last sample.
pub open spec fn last_time(samples: Seq<SampleView>) -> Option<u64> {
    if samples.len() == 0 {
        None
    } else {
        Some(samples.last().dts)
    }
}

/// The video samples that a run of calls gave, with their decode times.
pub open spec fn samples(calls: Seq<Call>) -> Seq<SampleView>
    decreases calls.len(),
{
    if calls.len() == 0 {
        seq![]
    } else {
        let before = samples(calls.drop_last());
        match calls.last() {
            Call::Sample { data, sync, pts_us } => before.push(
                SampleView { data, sync, dts: mp4::decode_time(pts_us, last_time(before)) },
            ),
            _ => before,
        }
    }
}

/// An audio packet with its duration and its decode time.
pub type TimedPacket = (Seq<u8>, u32, int);

/// The audio packets that a run of calls gave; none where no track is declared.
pub open spec fn packets(audio: Option<Seq<u8>>, calls: Seq<Call>) -> Seq<TimedPacket>
    decreases calls.len(),
{
    if calls.len() == 0 {
        seq![]
    } else {
        let before = packets(audio, calls.drop_last());
        match calls.last() {
            Call::Packet { data, dts } => if audio is Some {
                before.push((data, mp4::opus_samples(data) as u32, dts as int))
            } else {
                before
            },
            _ => before,
        }
    }
}

/// One piece of a file.
pub enum Piece {
    Init { entry: Seq<u8>, width: u32, height: u32 },
    Video { sample: SampleView, duration: u32 },
    Audio { dts: u64, packets: Seq<PacketView> },
}

/// A piece that is a fragment.
pub open spec fn is_fragment(p: Piece) -> bool {
    !(p is Init)
}

/// The fragments among pieces.
pub open spec fn fragments(pieces: Seq<Piece>) -> nat
    decreases pieces.len(),
{
    if pieces.len() == 0 {
        0
    } else {
        fragments(pieces.drop_last()) + if is_fragment(pieces.last()) {
            1nat
        } else {
            0nat
        }
    }
}

/// A piece's bytes, where the fragments up to it count `number`.
pub open spec fn piece_bytes(audio: Option<Seq<u8>>, p: Piece, number: nat) -> Seq<u8> {
    match p {
        Piece::Init { entry, width, height } => mp4::ftyp_box() + mp4::moov_box(
            entry,
            width,
            height,
            audio,
        ),
        Piece::Video { sample, duration } => mp4::video_fragment(number as u32, sample, duration),
        Piece::Audio { dts, packets } => mp4::audio_fragment(number as u32, dts, packets),
    }
}

/// Pieces one behind another, their fragments numbered from one.
pub open spec fn file_bytes(audio: Option<Seq<u8>>, pieces: Seq<Piece>) -> Seq<u8>
    decreases pieces.len(),
{
    if pieces.len() == 0 {
        seq![]
    } else {
        file_bytes(audio, pieces.drop_last()) + piece_bytes(
            audio,
            pieces.last(),
            fragments(pieces),
        )
    }
}

/// The video samples among pieces, each with the duration it was written with.
pub open spec fn shown(pieces: Seq<Piece>) -> Seq<(SampleView, u32)>
    decreases pieces.len(),
{
    if pieces.len() == 0 {
        seq![]
    } else {
        match pieces.last() {
            Piece::Video { sample, duration } => shown(pieces.drop_last()).push((sample, duration)),
            _ => shown(pieces.drop_last()),
        }
    }
}

/// Packets that follow one another directly from a decode time.
pub open spec fn contiguous(dts: int, packets: Seq<PacketView>) -> Seq<TimedPacket> {
    Seq::new(
        packets.len(),
        |j: int| (packets[j].0, packets[j].1, dts + mp4::audio_ticks(packets.take(j))),
    )
}

/// The audio packets among pieces: in each fragment they follow one another directly.
pub open spec fn heard(pieces: Seq<Piece>) -> Seq<TimedPacket>
    decreases pieces.len(),
{
    if pieces.len() == 0 {
        seq![]
    } else {
        match pieces.last() {
            Piece::Audio { dts, packets } => heard(pieces.drop_last()) + contiguous(
                dts as int,
                packets,
            ),
            _ => heard(pieces.drop_last()),
        }
    }
}

/// No audio fragment is empty or over its limit.
pub open spec fn batches_are_short(pieces: Seq<Piece>) -> bool {
    forall|i: int|
        0 <= i < pieces.len() ==> match #[trigger] pieces[i] {
            Piece::Audio { packets, .. } => 0 < packets.len() <= mp4::AUDIO_FLUSH_SAMPLES,
            _ => true,
        }
}

/// Where a piece ends, in microseconds.
pub open spec fn piece_end(p: Piece) -> int {
    match p {
        Piece::Init { .. } => 0,
        Piece::Video { sample, duration } => (sample.dts + duration) * 1000 / 90,
        Piece::Audio { dts, packets } => (dts + mp4::audio_ticks(packets)) * 1_000_000 / 48_000,
    }
}

/// The later of two times.
pub open spec fn later_of(a: int, b: int) -> int {
    if a >= b {
        a
    } else {
        b
    }
}

/// Where the last of the pieces to end ends.
pub open spec fn pieces_end(pieces: Seq<Piece>) -> int
    decreases pieces.len(),
{
    if pieces.len() == 0 {
        0
    } else {
        later_of(pieces_end(pieces.drop_last()), piece_end(pieces.last()))
    }
}

/// Every sample but the last, with the time to the next one.
pub open spec fn succeeded(samples: Seq<SampleView>) -> Seq<(SampleView, u32)> {
    Seq::new(
        if samples.len() == 0 {
            0
        } else {
            (samples.len() - 1) as nat
        },
        |i: int| (samples[i], mp4::duration_between(samples[i].dts, samples[i + 1].dts)),
    )
}

/// The times from each sample to the next.
pub open spec fn gaps(samples: Seq<SampleView>) -> Seq<u32> {
    succeeded(samples).map_values(|s: (SampleView, u32)| s.1)
}

/// The samples among these that can be decoded on their own.
pub open spec fn keyframes(samples: Seq<(SampleView, u32)>) -> nat
    decreases samples.len(),
{
    if samples.len() == 0 {
        0
    } else {
        keyframes(samples.drop_last()) + if samples.last().0.sync {
            1nat
        } else {
            0nat
        }
    }
}

/// The calls that gave a sample that can be decoded on its own.
pub open spec fn keyframe_calls(calls: Seq<Call>) -> nat
    decreases calls.len(),
{
    if calls.len() == 0 {
        0
    } else {
        keyframe_calls(calls.drop_last()) + match calls.last() {
            Call::Sample { sync, .. } => if sync {
                1nat
            } else {
                0nat
            },
            _ => 0nat,
        }
    }
}

/// The pieces that the packets held back come to when they are written.
pub open spec fn batch(v: MuxView) -> Seq<Piece> {
    if v.audio_pending.len() == 0 {
        seq![]
    } else {
        seq![Piece::Audio { dts: v.audio_batch_dts, packets: v.audio_pending }]
    }
}

/// A packet breaks off the ones held back.
pub open spec fn breaks_off(v: MuxView, dts: u64) -> bool {
    v.audio_pending.len() > 0 && dts != v.audio_next_dts
}

/// The writer ahead of a packet: the packets held back are gone where it breaks them off.
pub open spec fn broken_off(v: MuxView, dts: u64) -> MuxView {
    if breaks_off(v, dts) {
        v.with_audio_flushed()
    } else {
        v
    }
}

/// The writer with a packet held back.
pub open spec fn holding(v: MuxView, data: Seq<u8>, dts: u64) -> MuxView {
    MuxView {
        audio_batch_dts: if v.audio_pending.len() == 0 {
            dts
        } else {
            v.audio_batch_dts
        },
        audio_pending: v.audio_pending.push((data, mp4::opus_samples(data) as u32)),
        audio_next_dts: (dts + mp4::opus_samples(data)) as u64,
        ..v
    }
}

/// The pieces that a call writes.
pub open spec fn written(v: MuxView, c: Call) -> Seq<Piece> {
    match c {
        Call::Init { entry, width, height } => seq![Piece::Init { entry, width, height }],
        Call::Sample { pts_us, .. } => match v.pending {
            None => seq![],
            Some(prev) => seq![
                Piece::Video {
                    sample: prev,
                    duration: mp4::duration_between(
                        prev.dts,
                        mp4::decode_time(pts_us, v.last_dts),
                    ),
                },
            ],
        },
        Call::Packet { data, dts } => if v.audio is None {
            seq![]
        } else {
            let held = holding(broken_off(v, dts), data, dts);
            (if breaks_off(v, dts) {
                batch(v)
            } else {
                seq![]
            }) + (if held.audio_pending.len() >= mp4::AUDIO_FLUSH_SAMPLES {
                batch(held)
            } else {
                seq![]
            })
        },
        Call::Take => seq![],
    }
}

/// The pieces that a run of calls wrote.
pub open spec fn pieces(audio: Option<Seq<u8>>, calls: Seq<Call>) -> Seq<Piece>
    decreases calls.len(),
{
    if calls.len() == 0 {
        seq![]
    } else {
        pieces(audio, calls.drop_last()) + written(
            writer(audio, calls.drop_last()),
            calls.last(),
        )
    }
}

/// The pieces that closing a file writes.
pub open spec fn closing(v: MuxView) -> Seq<Piece> {
    batch(v) + match v.pending {
        None => seq![],
        Some(s) => seq![Piece::Video { sample: s, duration: mp4::median(v.durations) }],
    }
}

/// The pieces of the file that a run of calls made, once it is closed.
pub open spec fn all_pieces(audio: Option<Seq<u8>>, calls: Seq<Call>) -> Seq<Piece> {
    pieces(audio, calls) + closing(writer(audio, calls))
}

/// Everything that a run of calls and the closing of the file wrote, handed over or not.
pub open spec fn all_bytes(audio: Option<Seq<u8>>, calls: Seq<Call>) -> Seq<u8> {
    taken(audio, calls) + writer(audio, calls).closed_file().out
}

/// A writer, what it was given, and what came of it.
struct History {
    file: MuxView,
    taken: Seq<u8>,
    pieces: Seq<Piece>,
    samples: Seq<SampleView>,
    packets: Seq<TimedPacket>,
}

/// What every writer keeps, its batch full at most.
spec fn kept(v: MuxView) -> bool {
    &&& v.audio_pending.len() <= mp4::AUDIO_FLUSH_SAMPLES
    &&& v.fragments() <= u32::MAX
    &&& v.committed() <= u64::MAX
    &&& v.last_dts == match v.pending {
        Some(s) => Some(s.dts),
        None => None,
    }
    &&& v.last_dts matches Some(t) ==> t <= mp4::MAX_TICKS
    &&& v.audio_pending.len() > 0 ==> v.audio_batch_dts + mp4::audio_ticks(v.audio_pending)
        == v.audio_next_dts
    &&& v.audio_next_dts <= mp4::MAX_AUDIO_TICKS
    &&& v.stats.samples <= v.seq
    &&& v.stats.sync_samples <= v.stats.samples
    &&& v.stats.audio_samples <= mp4::AUDIO_FLUSH_SAMPLES * v.seq
}

/// The bytes are the pieces'.
spec fn told_bytes(h: History) -> bool {
    &&& h.file.seq == fragments(h.pieces)
    &&& h.taken + h.file.out == file_bytes(h.file.audio, h.pieces)
    &&& h.file.stats.bytes == h.taken.len() + h.file.out.len()
    &&& h.file.stats.duration_us == pieces_end(h.pieces)
}

/// The samples are the pieces', but for the last, which is held back.
spec fn told_samples(h: History) -> bool {
    &&& shown(h.pieces) == succeeded(h.samples)
    &&& h.file.durations == gaps(h.samples)
    &&& h.file.pending == if h.samples.len() == 0 {
        None
    } else {
        Some(h.samples.last())
    }
    &&& h.file.stats.samples == shown(h.pieces).len()
    &&& h.file.stats.sync_samples == keyframes(shown(h.pieces))
}

/// The packets are the pieces' and those held back.
spec fn told_packets(h: History) -> bool {
    &&& heard(h.pieces) + contiguous(h.file.audio_batch_dts as int, h.file.audio_pending)
        == h.packets
    &&& h.file.stats.audio_samples == heard(h.pieces).len()
    &&& batches_are_short(h.pieces)
}

spec fn told(h: History) -> bool {
    &&& kept(h.file)
    &&& told_bytes(h)
    &&& told_samples(h)
    &&& told_packets(h)
}

proof fn one_more(audio: Option<Seq<u8>>, pieces: Seq<Piece>, p: Piece)
    ensures
        fragments(pieces.push(p)) == fragments(pieces) + if is_fragment(p) {
            1nat
        } else {
            0nat
        },
        file_bytes(audio, pieces.push(p)) == file_bytes(audio, pieces) + piece_bytes(
            audio,
            p,
            fragments(pieces.push(p)),
        ),
        shown(pieces.push(p)) == match p {
            Piece::Video { sample, duration } => shown(pieces).push((sample, duration)),
            _ => shown(pieces),
        },
        heard(pieces.push(p)) == match p {
            Piece::Audio { dts, packets } => heard(pieces) + contiguous(dts as int, packets),
            _ => heard(pieces),
        },
        pieces_end(pieces.push(p)) == later_of(pieces_end(pieces), piece_end(p)),
{
    assert(pieces.push(p).drop_last() =~= pieces);
}

proof fn keyframes_push(s: Seq<(SampleView, u32)>, x: (SampleView, u32))
    ensures
        keyframes(s.push(x)) == keyframes(s) + if x.0.sync {
            1nat
        } else {
            0nat
        },
{
    assert(s.push(x).drop_last() =~= s);
}

/// Writing a video sample that was held back.
proof fn video_step(h: History, s: SampleView, duration: u32, file: MuxView)
    requires
        told_bytes(h),
        h.file.seq < u32::MAX,
        h.file.stats.bytes + 108 + s.data.len() <= u64::MAX,
        (s.dts + duration) * 1000 <= u64::MAX,
        file == h.file.with_video(s, duration),
    ensures
        told_bytes(
            History { file, pieces: h.pieces.push(Piece::Video { sample: s, duration }), ..h },
        ),
        file.out.len() == h.file.out.len() + 108 + s.data.len(),
{
    let p = Piece::Video { sample: s, duration };
    one_more(h.file.audio, h.pieces, p);
    let seq = (h.file.seq + 1) as u32;
    mp4::video_fragment_length(seq, s, duration);
    assert(file.out == h.file.out + mp4::video_fragment(seq, s, duration));
    assert(h.taken + file.out =~= (h.taken + h.file.out) + mp4::video_fragment(seq, s, duration));
}

proof fn flush_step(h: History)
    requires
        told(h),
        h.file.audio_pending.len() > 0,
    ensures
        told(
            History { file: h.file.with_audio_flushed(), pieces: h.pieces + batch(h.file), ..h },
        ),
        h.file.with_audio_flushed().committed() == h.file.committed(),
        h.file.with_audio_flushed().fragments() == h.file.fragments(),
        h.file.with_audio_flushed().audio_pending.len() == 0,
        h.file.with_audio_flushed().audio == h.file.audio,
{
    let v = h.file;
    let w = v.with_audio_flushed();
    let p = Piece::Audio { dts: v.audio_batch_dts, packets: v.audio_pending };
    let seq = (v.seq + 1) as u32;
    assert(h.pieces + batch(v) =~= h.pieces.push(p));
    one_more(v.audio, h.pieces, p);
    mp4::audio_fragment_length(seq, v.audio_batch_dts, v.audio_pending);
    assert(w.out == v.out + mp4::audio_fragment(seq, v.audio_batch_dts, v.audio_pending));
    assert(h.taken + w.out =~= (h.taken + v.out) + mp4::audio_fragment(
        seq,
        v.audio_batch_dts,
        v.audio_pending,
    ));
    let after = History { file: w, pieces: h.pieces.push(p), ..h };
    assert(contiguous(w.audio_batch_dts as int, w.audio_pending) =~= seq![]);
    assert(heard(after.pieces) + contiguous(w.audio_batch_dts as int, w.audio_pending)
        =~= h.packets);
    assert(mp4::audio_data(w.audio_pending).len() == 0);
    assert(told_bytes(after));
    assert(told_samples(after));
    assert(told_packets(after));
    assert(kept(w));
}

proof fn contiguous_push(dts: int, packets: Seq<PacketView>, p: PacketView)
    ensures
        contiguous(dts, packets.push(p)) == contiguous(dts, packets).push(
            (p.0, p.1, dts + mp4::audio_ticks(packets)),
        ),
        mp4::audio_ticks(packets.push(p)) == mp4::audio_ticks(packets) + p.1,
        mp4::audio_data(packets.push(p)) == mp4::audio_data(packets) + p.0,
{
    let longer = packets.push(p);
    assert(longer.drop_last() =~= packets);
    assert forall|j: int| 0 <= j < longer.len() implies contiguous(dts, longer)[j] == contiguous(
        dts,
        packets,
    ).push((p.0, p.1, dts + mp4::audio_ticks(packets)))[j] by {
        assert(longer.take(j) =~= packets.take(j));
        if j == packets.len() {
            assert(packets.take(j) =~= packets);
        }
    }
    assert(contiguous(dts, longer) =~= contiguous(dts, packets).push(
        (p.0, p.1, dts + mp4::audio_ticks(packets)),
    ));
}

proof fn hold_step(h: History, data: Seq<u8>, dts: u64)
    requires
        told(h),
        h.file.audio_pending.len() < mp4::AUDIO_FLUSH_SAMPLES,
        !breaks_off(h.file, dts),
        dts + mp4::opus_samples(data) <= mp4::MAX_AUDIO_TICKS,
        h.file.fragments() < u32::MAX,
        h.file.committed() + 108 + data.len() <= u64::MAX,
    ensures
        told(
            History {
                file: holding(h.file, data, dts),
                packets: h.packets.push((data, mp4::opus_samples(data) as u32, dts as int)),
                ..h
            },
        ),
{
    let v = h.file;
    let n = mp4::opus_samples(data) as u32;
    let w = holding(v, data, dts);
    contiguous_push(w.audio_batch_dts as int, v.audio_pending, (data, n));
    let last = (data, n, dts as int);
    if v.audio_pending.len() == 0 {
        assert(mp4::audio_ticks(v.audio_pending) == 0);
        assert(mp4::audio_data(v.audio_pending).len() == 0);
        assert(contiguous(v.audio_batch_dts as int, v.audio_pending) =~= seq![]);
        assert(contiguous(w.audio_batch_dts as int, v.audio_pending) =~= seq![]);
    }
    assert(heard(h.pieces) + contiguous(w.audio_batch_dts as int, w.audio_pending) =~= (heard(
        h.pieces,
    ) + contiguous(w.audio_batch_dts as int, v.audio_pending)).push(last));
    let after = History { file: w, packets: h.packets.push(last), ..h };
    assert(told_packets(after));
    assert(kept(w));
}

proof fn packet_step(h: History, data: Seq<u8>, dts: u64)
    requires
        told(h),
        h.file.audio is Some,
        h.file.audio_pending.len() < mp4::AUDIO_FLUSH_SAMPLES,
        fits(h.file, Call::Packet { data, dts }),
    ensures
        told(
            History {
                file: h.file.with_packet(data, dts),
                pieces: h.pieces + written(h.file, Call::Packet { data, dts }),
                packets: h.packets.push((data, mp4::opus_samples(data) as u32, dts as int)),
                ..h
            },
        ),
        h.file.with_packet(data, dts).audio_pending.len() < mp4::AUDIO_FLUSH_SAMPLES,
        h.file.with_packet(data, dts).audio == h.file.audio,
{
    let v = h.file;
    let closed = broken_off(v, dts);
    let first = if breaks_off(v, dts) {
        batch(v)
    } else {
        seq![]
    };
    let h1 = History { file: closed, pieces: h.pieces + first, ..h };
    if breaks_off(v, dts) {
        flush_step(h);
    } else {
        assert(h.pieces + first =~= h.pieces);
    }
    assert(told(h1));
    hold_step(h1, data, dts);
    let held = holding(closed, data, dts);
    let last = (data, mp4::opus_samples(data) as u32, dts as int);
    let h2 = History { file: held, packets: h.packets.push(last), ..h1 };
    let second = if held.audio_pending.len() >= mp4::AUDIO_FLUSH_SAMPLES {
        batch(held)
    } else {
        seq![]
    };
    assert(h.pieces + written(v, Call::Packet { data, dts }) =~= h1.pieces + second);
    if held.audio_pending.len() >= mp4::AUDIO_FLUSH_SAMPLES {
        flush_step(h2);
        assert(v.with_packet(data, dts) == held.with_audio_flushed());
    } else {
        assert(h1.pieces + second =~= h1.pieces);
        assert(v.with_packet(data, dts) == held);
    }
}

proof fn succeeded_push(s: Seq<SampleView>, x: SampleView)
    ensures
        s.len() == 0 ==> succeeded(s.push(x)) == Seq::<(SampleView, u32)>::empty() && gaps(s.push(x))
            == Seq::<u32>::empty() && gaps(s) == Seq::<u32>::empty(),
        s.len() > 0 ==> {
            let d = mp4::duration_between(s.last().dts, x.dts);
            &&& succeeded(s.push(x)) == succeeded(s).push((s.last(), d))
            &&& gaps(s.push(x)) == gaps(s).push(d)
        },
{
    if s.len() == 0 {
        assert(succeeded(s.push(x)) =~= Seq::<(SampleView, u32)>::empty());
        assert(gaps(s.push(x)) =~= Seq::<u32>::empty());
        assert(gaps(s) =~= Seq::<u32>::empty());
    } else {
        let d = mp4::duration_between(s.last().dts, x.dts);
        assert(succeeded(s.push(x)) =~= succeeded(s).push((s.last(), d)));
        assert(gaps(s.push(x)) =~= gaps(s).push(d));
    }
}

proof fn sample_step(h: History, data: Seq<u8>, sync: bool, pts_us: u64)
    requires
        told(h),
        fits(h.file, Call::Sample { data, sync, pts_us }),
    ensures
        told(
            History {
                file: h.file.with_sample(data, sync, pts_us),
                pieces: h.pieces + written(h.file, Call::Sample { data, sync, pts_us }),
                samples: h.samples.push(
                    SampleView {
                        data,
                        sync,
                        dts: mp4::decode_time(pts_us, last_time(h.samples)),
                    },
                ),
                ..h
            },
        ),
        h.file.with_sample(data, sync, pts_us).audio_pending == h.file.audio_pending,
        h.file.with_sample(data, sync, pts_us).audio == h.file.audio,
{
    let v = h.file;
    let w = v.with_sample(data, sync, pts_us);
    let dts = mp4::decode_time(pts_us, v.last_dts);
    assert(v.last_dts == last_time(h.samples));
    let x = SampleView { data, sync, dts };
    let next = History {
        file: w,
        pieces: h.pieces + written(v, Call::Sample { data, sync, pts_us }),
        samples: h.samples.push(x),
        ..h
    };
    succeeded_push(h.samples, x);
    match v.pending {
        None => {
            assert(next.pieces =~= h.pieces);
            assert(succeeded(h.samples) =~= Seq::<(SampleView, u32)>::empty());
        },
        Some(prev) => {
            let d = mp4::duration_between(prev.dts, dts);
            let p = Piece::Video { sample: prev, duration: d };
            let mid = MuxView { durations: v.durations.push(d), ..v };
            video_step(History { file: mid, ..h }, prev, d, mid.with_video(prev, d));
            assert(next.pieces =~= h.pieces.push(p));
            one_more(v.audio, h.pieces, p);
            keyframes_push(shown(h.pieces), (prev, d));
        },
    }
    assert(told_bytes(next));
    assert(told_samples(next));
    assert(told_packets(next));
    assert(kept(w));
}

proof fn init_step(h: History, entry: Seq<u8>, width: u32, height: u32)
    requires
        told(h),
        fits(h.file, Call::Init { entry, width, height }),
    ensures
        told(
            History {
                file: h.file.with_init(entry, width, height),
                pieces: h.pieces + written(h.file, Call::Init { entry, width, height }),
                ..h
            },
        ),
{
    let v = h.file;
    let w = v.with_init(entry, width, height);
    let p = Piece::Init { entry, width, height };
    mp4::moov_length(entry, width, height, v.audio);
    one_more(v.audio, h.pieces, p);
    assert(h.pieces + seq![p] =~= h.pieces.push(p));
    let segment = mp4::ftyp_box() + mp4::moov_box(entry, width, height, v.audio);
    assert(h.taken + w.out =~= (h.taken + v.out) + segment);
    ends_are_later(h.pieces);
    let next = History { file: w, pieces: h.pieces.push(p), ..h };
    assert(told_bytes(next));
    assert(told_samples(next));
    assert(told_packets(next));
    assert(kept(w));
}

proof fn ends_are_later(pieces: Seq<Piece>)
    ensures
        pieces_end(pieces) >= 0,
    decreases pieces.len(),
{
    if pieces.len() > 0 {
        ends_are_later(pieces.drop_last());
    }
}

spec fn history(audio: Option<Seq<u8>>, calls: Seq<Call>) -> History {
    History {
        file: writer(audio, calls),
        taken: taken(audio, calls),
        pieces: pieces(audio, calls),
        samples: samples(calls),
        packets: packets(audio, calls),
    }
}

proof fn runs_are_told(audio: Option<Seq<u8>>, calls: Seq<Call>)
    requires
        admitted(audio, calls),
    ensures
        told(history(audio, calls)),
        writer(audio, calls).audio_pending.len() < mp4::AUDIO_FLUSH_SAMPLES,
        writer(audio, calls).audio == audio,
        writer(audio, calls).wf(),
    decreases calls.len(),
{
    let h = history(audio, calls);
    if calls.len() == 0 {
        assert(h.taken + h.file.out =~= seq![]);
        assert(succeeded(h.samples) =~= seq![]);
        assert(gaps(h.samples) =~= seq![]);
        assert(contiguous(0, h.file.audio_pending) =~= seq![]);
        assert(heard(h.pieces) + contiguous(0, h.file.audio_pending) =~= seq![]);
        assert(told_packets(h));
    } else {
        let before = history(audio, calls.drop_last());
        runs_are_told(audio, calls.drop_last());
        match calls.last() {
            Call::Init { entry, width, height } => init_step(before, entry, width, height),
            Call::Sample { data, sync, pts_us } => sample_step(before, data, sync, pts_us),
            Call::Packet { data, dts } => {
                if audio is Some {
                    packet_step(before, data, dts);
                } else {
                    assert(h.pieces =~= before.pieces);
                }
            },
            Call::Take => {
                assert(h.pieces =~= before.pieces);
                assert(h.taken + h.file.out =~= before.taken + before.file.out);
            },
        }
    }
}

/// After any run of calls every video sample given but the last is written, in order, each with the
/// time to its successor as its duration; the last one alone is held back. What was written is the
/// pieces, one behind another.
pub proof fn samples_are_written_in_order(audio: Option<Seq<u8>>, calls: Seq<Call>)
    requires
        admitted(audio, calls),
    ensures
        shown(pieces(audio, calls)) == succeeded(samples(calls)),
        writer(audio, calls).pending == if samples(calls).len() == 0 {
            None
        } else {
            Some(samples(calls).last())
        },
        taken(audio, calls) + writer(audio, calls).out == file_bytes(audio, pieces(audio, calls)),
{
    runs_are_told(audio, calls);
}

/// A video sample that arrives lets exactly the one before it go, as one fragment: its bytes, its
/// decode time, and the time between the two as its duration. The first one writes nothing.
pub proof fn a_sample_lets_the_one_before_it_go(
    audio: Option<Seq<u8>>,
    calls: Seq<Call>,
    data: Seq<u8>,
    sync: bool,
    pts_us: u64,
)
    requires
        admitted(audio, calls),
        fits(writer(audio, calls), Call::Sample { data, sync, pts_us }),
    ensures
        ({
            let v = writer(audio, calls);
            let w = after(v, Call::Sample { data, sync, pts_us });
            let given = samples(calls);
            let dts = mp4::decode_time(pts_us, last_time(given));
            &&& w.pending == Some(SampleView { data, sync, dts })
            &&& given.len() == 0 ==> w.out == v.out
            &&& given.len() > 0 ==> w.out == v.out + mp4::video_fragment(
                (v.seq + 1) as u32,
                given.last(),
                mp4::duration_between(given.last().dts, dts),
            )
        }),
{
    runs_are_told(audio, calls);
}

/// After any run of calls the audio packets given are those written and those held back, in order:
/// in every fragment a packet decodes where the one before it ends, at the time it was given for.
/// No fragment holds more than a batch, and less than one is held back.
pub proof fn packets_are_written_in_order(audio: Option<Seq<u8>>, calls: Seq<Call>)
    requires
        admitted(audio, calls),
    ensures
        ({
            let v = writer(audio, calls);
            heard(pieces(audio, calls)) + contiguous(v.audio_batch_dts as int, v.audio_pending)
                == packets(audio, calls)
        }),
        batches_are_short(pieces(audio, calls)),
        writer(audio, calls).audio_pending.len() < mp4::AUDIO_FLUSH_SAMPLES,
{
    runs_are_told(audio, calls);
}

/// Where the video track ends, in microseconds.
pub open spec fn video_end(samples: Seq<SampleView>) -> int {
    if samples.len() == 0 {
        0
    } else {
        (samples.last().dts + mp4::median(gaps(samples))) * 1000 / 90
    }
}

/// Where the audio track ends, in microseconds.
pub open spec fn audio_end(packets: Seq<TimedPacket>) -> int
    decreases packets.len(),
{
    if packets.len() == 0 {
        0
    } else {
        later_of(
            audio_end(packets.drop_last()),
            (packets.last().2 + packets.last().1) * 1_000_000 / 48_000,
        )
    }
}

proof fn audio_end_joins(a: Seq<TimedPacket>, b: Seq<TimedPacket>)
    ensures
        audio_end(a + b) == later_of(audio_end(a), audio_end(b)),
        audio_end(a) >= 0,
    decreases b.len(), a.len(),
{
    if b.len() == 0 {
        assert(a + b =~= a);
        if a.len() > 0 {
            audio_end_joins(a.drop_last(), b);
        }
    } else {
        assert((a + b).drop_last() =~= a + b.drop_last());
        audio_end_joins(a, b.drop_last());
    }
}

/// A batch ends with its last packet.
proof fn batch_end(dts: int, p: Seq<PacketView>)
    requires
        dts >= 0,
    ensures
        audio_end(contiguous(dts, p)) == if p.len() == 0 {
            0
        } else {
            (dts + mp4::audio_ticks(p)) * 1_000_000 / 48_000
        },
    decreases p.len(),
{
    if p.len() > 0 {
        let shorter = p.drop_last();
        assert(p =~= shorter.push(p.last()));
        contiguous_push(dts, shorter, p.last());
        assert(contiguous(dts, p).drop_last() =~= contiguous(dts, shorter));
        batch_end(dts, shorter);
        assert(mp4::audio_ticks(p) == mp4::audio_ticks(shorter) + p.last().1);
    } else {
        assert(contiguous(dts, p) =~= seq![]);
    }
}

/// Where the last of the samples written to end ends.
spec fn shown_end(s: Seq<(SampleView, u32)>) -> int
    decreases s.len(),
{
    if s.len() == 0 {
        0
    } else {
        later_of(shown_end(s.drop_last()), (s.last().0.dts + s.last().1) * 1000 / 90)
    }
}

proof fn pieces_end_by_track(pieces: Seq<Piece>)
    requires
        batches_are_short(pieces),
    ensures
        pieces_end(pieces) == later_of(shown_end(shown(pieces)), audio_end(heard(pieces))),
        shown_end(shown(pieces)) >= 0,
        audio_end(heard(pieces)) >= 0,
    decreases pieces.len(),
{
    if pieces.len() > 0 {
        let rest = pieces.drop_last();
        assert(forall|i: int| 0 <= i < rest.len() ==> rest[i] == pieces[i]);
        pieces_end_by_track(rest);
        match pieces.last() {
            Piece::Init { .. } => {},
            Piece::Video { sample, duration } => {
                assert(shown(pieces).drop_last() =~= shown(rest));
            },
            Piece::Audio { dts, packets } => {
                assert(pieces[pieces.len() - 1] == pieces.last());
                audio_end_joins(heard(rest), contiguous(dts as int, packets));
                batch_end(dts as int, packets);
            },
        }
    }
}

/// Decode times increase over a run.
spec fn ordered(s: Seq<SampleView>) -> bool {
    forall|i: int, j: int| 0 <= i < j < s.len() ==> (#[trigger] s[i]).dts < (#[trigger] s[j]).dts
}

proof fn samples_are_ordered(audio: Option<Seq<u8>>, calls: Seq<Call>)
    requires
        admitted(audio, calls),
    ensures
        ordered(samples(calls)),
    decreases calls.len(),
{
    if calls.len() > 0 {
        samples_are_ordered(audio, calls.drop_last());
        runs_are_told(audio, calls.drop_last());
        let before = samples(calls.drop_last());
        match calls.last() {
            Call::Sample { data, sync, pts_us } => {
                let dts = mp4::decode_time(pts_us, last_time(before));
                let v = writer(audio, calls.drop_last());
                assert(v.last_dts == last_time(before));
                assert(before.len() > 0 ==> dts > before.last().dts);
            },
            _ => {},
        }
    }
}

/// The samples that have a successor end no later than the last one starts.
proof fn succeeded_end(s: Seq<SampleView>)
    requires
        s.len() > 0,
        ordered(s),
    ensures
        0 <= shown_end(succeeded(s)) <= s.last().dts * 1000 / 90,
    decreases s.len(),
{
    if s.len() > 1 {
        let shorter = s.drop_last();
        assert(s =~= shorter.push(s.last()));
        succeeded_push(shorter, s.last());
        assert(succeeded(s).drop_last() =~= succeeded(shorter));
        assert(s[s.len() - 2].dts < s[s.len() - 1].dts);
        succeeded_end(shorter);
        let d = mp4::duration_between(shorter.last().dts, s.last().dts);
        assert(shorter.last().dts + d <= s.last().dts);
    } else {
        assert(succeeded(s) =~= seq![]);
    }
}

proof fn keyframes_are_counted(calls: Seq<Call>)
    ensures
        keyframe_calls(calls) == keyframes(succeeded(samples(calls))) + if samples(calls).len() > 0
            && samples(calls).last().sync {
            1nat
        } else {
            0nat
        },
    decreases calls.len(),
{
    if calls.len() > 0 {
        let before = samples(calls.drop_last());
        keyframes_are_counted(calls.drop_last());
        match calls.last() {
            Call::Sample { data, sync, pts_us } => {
                let x = SampleView {
                    data,
                    sync,
                    dts: mp4::decode_time(pts_us, last_time(before)),
                };
                succeeded_push(before, x);
                if before.len() > 0 {
                    keyframes_push(
                        succeeded(before),
                        (before.last(), mp4::duration_between(before.last().dts, x.dts)),
                    );
                } else {
                    assert(succeeded(before) =~= seq![]);
                }
            },
            _ => {},
        }
    } else {
        assert(succeeded(samples(calls)) =~= seq![]);
    }
}

/// The file of a run once it is closed: the writer's pieces and the closing ones.
proof fn closing_is_told(audio: Option<Seq<u8>>, calls: Seq<Call>)
    requires
        admitted(audio, calls),
        writer(audio, calls).closable(),
    ensures
        ({
            let v = writer(audio, calls);
            let w = v.closed_file();
            let all = all_pieces(audio, calls);
            &&& all_bytes(audio, calls) == file_bytes(audio, all)
            &&& w.stats.bytes == all_bytes(audio, calls).len()
            &&& w.stats.duration_us == pieces_end(all)
            &&& w.stats.samples == shown(all).len()
            &&& w.stats.sync_samples == keyframes(shown(all))
            &&& w.stats.audio_samples == heard(all).len()
            &&& heard(all) == packets(audio, calls)
            &&& batches_are_short(all)
            &&& shown(all) == match v.pending {
                None => succeeded(samples(calls)),
                Some(s) => succeeded(samples(calls)).push((s, mp4::median(v.durations))),
            }
        }),
{
    runs_are_told(audio, calls);
    let h = history(audio, calls);
    let v = h.file;
    let flushed = v.with_audio_flushed();
    let h1 = History { file: flushed, pieces: h.pieces + batch(v), ..h };
    if v.audio_pending.len() > 0 {
        flush_step(h);
    } else {
        assert(h.pieces + batch(v) =~= h.pieces);
    }
    assert(told(h1));
    assert(contiguous(flushed.audio_batch_dts as int, flushed.audio_pending) =~= seq![]);
    assert(heard(h1.pieces) =~= h.packets);
    assert(flushed.durations == v.durations && flushed.pending == v.pending);
    match v.pending {
        None => {
            assert(all_pieces(audio, calls) =~= h1.pieces);
        },
        Some(s) => {
            let d = mp4::median(v.durations);
            let p = Piece::Video { sample: s, duration: d };
            let mid = MuxView { pending: None, ..flushed };
            assert(all_pieces(audio, calls) =~= h1.pieces.push(p));
            video_step(History { file: mid, ..h1 }, s, d, mid.with_video(s, d));
            one_more(audio, h1.pieces, p);
            keyframes_push(shown(h1.pieces), (s, d));
        },
    }
}

/// A closed file tells the totals of the run: the bytes handed over, every video sample given, those
/// of them that can be decoded on their own, every audio packet given (none without a track), and
/// the end of whichever track runs longer.
pub proof fn closing_tells_the_totals(audio: Option<Seq<u8>>, calls: Seq<Call>)
    requires
        admitted(audio, calls),
        writer(audio, calls).closable(),
    ensures
        ({
            let stats = writer(audio, calls).closed_file().stats;
            &&& stats.bytes == all_bytes(audio, calls).len()
            &&& stats.samples == samples(calls).len()
            &&& stats.sync_samples == keyframe_calls(calls)
            &&& stats.audio_samples == packets(audio, calls).len()
            &&& stats.duration_us == later_of(
                video_end(samples(calls)),
                audio_end(packets(audio, calls)),
            )
        }),
        all_bytes(audio, calls) == file_bytes(audio, all_pieces(audio, calls)),
        heard(all_pieces(audio, calls)) == packets(audio, calls),
{
    closing_is_told(audio, calls);
    runs_are_told(audio, calls);
    keyframes_are_counted(calls);
    let v = writer(audio, calls);
    let all = all_pieces(audio, calls);
    let given = samples(calls);
    pieces_end_by_track(all);
    match v.pending {
        None => {
            assert(given.len() == 0);
            assert(succeeded(given) =~= seq![]);
        },
        Some(s) => {
            let d = mp4::median(v.durations);
            samples_are_ordered(audio, calls);
            succeeded_end(given);
            assert(shown(all).drop_last() =~= succeeded(given));
            keyframes_push(succeeded(given), (s, d));
            assert(v.durations == gaps(given));
        },
    }
}

/// A piece whose boxes' sizes fit their size fields.
pub open spec fn sizes_fit(audio: Option<Seq<u8>>, p: Piece) -> bool {
    match p {
        Piece::Init { entry, .. } => 896 + entry.len() + (match audio {
            None => 0,
            Some(a) => a.len(),
        }) <= u32::MAX,
        Piece::Video { sample, .. } => 8 + sample.data.len() <= u32::MAX,
        Piece::Audio { packets, .. } => 8 + mp4::audio_data(packets).len() <= u32::MAX,
    }
}

/// A closed file is made of whole boxes from its first byte to its last, as long as each box's size
/// fits its field.
pub proof fn whole_files_tile(audio: Option<Seq<u8>>, calls: Seq<Call>)
    requires
        admitted(audio, calls),
        writer(audio, calls).closable(),
        forall|i: int|
            0 <= i < all_pieces(audio, calls).len() ==> sizes_fit(
                audio,
                #[trigger] all_pieces(audio, calls)[i],
            ),
    ensures
        mp4_laws::is_tiled(all_bytes(audio, calls)),
{
    closing_is_told(audio, calls);
    pieces_tile(audio, all_pieces(audio, calls));
}

proof fn pieces_tile(audio: Option<Seq<u8>>, pieces: Seq<Piece>)
    requires
        batches_are_short(pieces),
        forall|i: int| 0 <= i < pieces.len() ==> sizes_fit(audio, #[trigger] pieces[i]),
    ensures
        mp4_laws::is_tiled(file_bytes(audio, pieces)),
    decreases pieces.len(),
{
    if pieces.len() > 0 {
        let rest = pieces.drop_last();
        assert(forall|i: int| 0 <= i < rest.len() ==> rest[i] == pieces[i]);
        pieces_tile(audio, rest);
        let p = pieces[pieces.len() - 1];
        assert(sizes_fit(audio, p));
        let n = fragments(pieces);
        let v = MuxView {
            out: file_bytes(audio, rest),
            seq: (n - 1) as u32,
            audio,
            ..MuxView::fresh()
        };
        match p {
            Piece::Init { entry, width, height } => {
                mp4_laws::init_keeps_tiling(v, entry, width, height);
            },
            Piece::Video { sample, duration } => {
                mp4_laws::video_fragment_tiles(n as u32, sample, duration);
                mp4_laws::tiles_join(v.out, piece_bytes(audio, p, n));
            },
            Piece::Audio { dts, packets } => {
                mp4_laws::audio_fragment_tiles(n as u32, dts, packets);
                mp4_laws::tiles_join(v.out, piece_bytes(audio, p, n));
            },
        }
    }
}

} // verus!
