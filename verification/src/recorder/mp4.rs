//! Fragmented-MP4 muxer for the built-in recorder.
//!
//! Fragmented MP4 needs no trailer and no seeking: each `moof`+`mdat` pair is self-contained, so
//! a file cut short stays playable up to its last fragment.
//!
//! Timestamps are wall-clock microseconds from the caller (damage-driven capture emits sparse,
//! irregular frames), carried at a 90 kHz track timescale with one sample per fragment. The
//! sample duration is only known once the next frame arrives, so one sample is always buffered
//! and written a frame behind; closing the file ends it with the median observed duration.
//!
//! An optional Opus audio track (track 2) takes packets with their decode time on the 48 kHz
//! clock and each one's duration from its own first byte; they go out in fragments of their own.
//!
//! The writer appends to an output buffer that its owner drains with
//! [`FragmentWriter::take_output`] and writes out.

use vstd::prelude::*;
use crate::bytes;
use super::annexb;
use super::annexb::split_annexb;
use super::boxes;
use super::ogg;
use super::ogg::OpusHead;
use super::sps;
use super::sps::parse_sps_dimensions;

verus! {

/// Fallback duration for the final buffered sample when only one frame was ever written: 1/30 s.
pub const DEFAULT_LAST_DURATION: u32 = boxes::TIMESCALE / 30;

/// Audio packets buffered before they go out as a fragment of their own: half a second of 20 ms
/// packets.
pub const AUDIO_FLUSH_SAMPLES: usize = 25;

/// The latest timestamp that can be put on the 90 kHz clock: some six thousand years.
pub const MAX_PTS_US: u64 = u64::MAX / 90;

/// The latest time on the 90 kHz clock that can be told in microseconds.
pub const MAX_TICKS: u64 = u64::MAX / 1000;

/// The latest decode time on the 48 kHz clock that can be told in microseconds.
pub const MAX_AUDIO_TICKS: u64 = u64::MAX / 1_000_000;

/// The frame duration of an Opus configuration, in tenths of a millisecond: SILK, hybrid, CELT.
pub open spec fn opus_frame_tenths(config: u8) -> nat {
    if config < 12 {
        if config % 4 == 0 {
            100
        } else if config % 4 == 1 {
            200
        } else if config % 4 == 2 {
            400
        } else {
            600
        }
    } else if config < 16 {
        if config % 2 == 0 {
            100
        } else {
            200
        }
    } else if config % 4 == 0 {
        25
    } else if config % 4 == 1 {
        50
    } else if config % 4 == 2 {
        100
    } else {
        200
    }
}

/// How many frames an Opus packet carries: one, two, or the count its second byte gives.
pub open spec fn opus_frame_count(packet: Seq<u8>) -> nat {
    if packet[0] % 4 == 0 {
        1
    } else if packet[0] % 4 < 3 {
        2
    } else if packet.len() > 1 {
        (packet[1] % 64) as nat
    } else {
        0
    }
}

/// The 48 kHz samples an Opus packet decodes to.
pub open spec fn opus_samples(packet: Seq<u8>) -> nat {
    if packet.len() == 0 {
        0
    } else {
        opus_frame_count(packet) * opus_frame_tenths(packet[0] / 8) * 48 / 10
    }
}

/// The 48 kHz samples an Opus packet decodes to, from its first byte: the configuration's frame
/// duration times the frame count its code carries.
pub fn opus_packet_samples(packet: &[u8]) -> (n: u32)
    ensures
        n == opus_samples(packet@),
{
    if packet.len() == 0 {
        return 0;
    }
    let toc: u8 = packet[0];
    let config: u8 = toc / 8;
    let tenths: u32 = if config < 12 {
        match config % 4 {
            0 => 100,
            1 => 200,
            2 => 400,
            _ => 600,
        }
    } else if config < 16 {
        match config % 2 {
            0 => 100,
            _ => 200,
        }
    } else {
        match config % 4 {
            0 => 25,
            1 => 50,
            2 => 100,
            _ => 200,
        }
    };
    let frames: u32 = match toc % 4 {
        0 => 1,
        1 => 2,
        2 => 2,
        _ => if packet.len() > 1 {
            (packet[1] % 64) as u32
        } else {
            0
        },
    };
    assert(frames * tenths <= 63 * 600) by (nonlinear_arith)
        requires
            frames <= 63,
            tenths <= 600,
    ;
    assert(tenths == opus_frame_tenths(config));
    assert(frames == opus_frame_count(packet@));
    frames * tenths * boxes::OPUS_TIMESCALE / 10_000
}

/// A codec's contribution to the init segment: its `stsd` sample entry (with decoder
/// configuration record) plus the display dimensions for `tkhd`.
pub struct TrackConfig {
    pub sample_entry: Vec<u8>,
    pub width: u32,
    pub height: u32,
}

/// The audio track's `stsd` sample entry.
pub struct AudioTrackConfig {
    pub sample_entry: Vec<u8>,
}

/// The `dOps` record: version, channels, pre-skip, input rate, gain, mapping family, then the
/// channel mapping for any family but 0.
pub open spec fn dops_box(head: OpusHead) -> Seq<u8> {
    boxes::boxed(
        boxes::DOPS,
        seq![0u8, head.channels] + bytes::be16(head.pre_skip) + bytes::be32(head.input_sample_rate)
            + bytes::be16(head.output_gain as u16) + seq![head.mapping_family] + head.mapping@,
    )
}

/// The `Opus` sample entry: reserved, data reference, reserved, channels, sample size,
/// pre-defined, reserved, the rate as 16.16, then the `dOps` record.
pub open spec fn opus_entry(head: OpusHead) -> Seq<u8> {
    boxes::boxed(
        boxes::OPUS,
        bytes::zeros(6) + bytes::be16(1) + bytes::zeros(8) + bytes::be16(head.channels as u16)
            + bytes::be16(16) + bytes::zeros(4) + bytes::be32(0xbb80_0000) + dops_box(head),
    )
}

/// The `Opus` sample entry with its `dOps` record, the head's own fields.
pub fn opus_sample_entry(head: &OpusHead) -> (b: Vec<u8>)
    ensures
        b@ == opus_entry(*head),
{
    let mut dops_p: Vec<u8> = Vec::new();
    dops_p.push(0);
    dops_p.push(head.channels);
    bytes::push_be16(&mut dops_p, head.pre_skip);
    bytes::push_be32(&mut dops_p, head.input_sample_rate);
    bytes::push_be16(&mut dops_p, head.output_gain as u16);
    dops_p.push(head.mapping_family);
    bytes::push_all(&mut dops_p, head.mapping.as_slice());
    assert(dops_p@ =~= seq![0u8, head.channels] + bytes::be16(head.pre_skip) + bytes::be32(
        head.input_sample_rate,
    ) + bytes::be16(head.output_gain as u16) + seq![head.mapping_family] + head.mapping@);
    let dops = boxes::mk_box(boxes::DOPS, dops_p.as_slice());
    let mut entry_p: Vec<u8> = Vec::new();
    bytes::push_zeros(&mut entry_p, 6);
    bytes::push_be16(&mut entry_p, 1);
    bytes::push_zeros(&mut entry_p, 8);
    bytes::push_be16(&mut entry_p, head.channels as u16);
    bytes::push_be16(&mut entry_p, 16);
    bytes::push_zeros(&mut entry_p, 4);
    bytes::push_be32(&mut entry_p, boxes::OPUS_TIMESCALE * 0x1_0000);
    bytes::push_all(&mut entry_p, dops.as_slice());
    assert(entry_p@ =~= bytes::zeros(6) + bytes::be16(1) + bytes::zeros(8) + bytes::be16(
        head.channels as u16,
    ) + bytes::be16(16) + bytes::zeros(4) + bytes::be32(0xbb80_0000) + dops_box(*head));
    boxes::mk_box(boxes::OPUS, entry_p.as_slice())
}

/// Aggregate counters of a file.
#[derive(Clone, Copy, Debug, PartialEq, Eq, Structural)]
pub struct Mp4Stats {
    pub samples: u64,
    pub sync_samples: u64,
    pub audio_samples: u64,
    pub bytes: u64,
    /// End of whichever track runs longer.
    pub duration_us: u64,
}

/// A sample's data, whether it can be decoded on its own, and its decode time.
pub struct SampleView {
    pub data: Seq<u8>,
    pub sync: bool,
    pub dts: u64,
}

/// An audio packet with its duration on the 48 kHz clock.
pub type PacketView = (Seq<u8>, u32);

/// A writer's state: what it has written and not handed over, and what it holds back.
pub struct MuxView {
    pub out: Seq<u8>,
    /// Fragments written.
    pub seq: u32,
    pub init: bool,
    pub pending: Option<SampleView>,
    pub last_dts: Option<u64>,
    /// The duration of every video sample written behind a successor.
    pub durations: Seq<u32>,
    /// The audio track's sample entry, where the track is declared.
    pub audio: Option<Seq<u8>>,
    pub audio_pending: Seq<PacketView>,
    pub audio_batch_dts: u64,
    pub audio_next_dts: u64,
    pub stats: Mp4Stats,
}

/// `ftyp`: the major brand, its version, the compatible brands.
#[verifier::opaque]
pub open spec fn ftyp_box() -> Seq<u8> {
    boxes::boxed(
        boxes::FTYP,
        bytes::be32(boxes::ISOM) + bytes::be32(0x200) + bytes::be32(boxes::ISOM) + bytes::be32(
            boxes::ISO5,
        ) + bytes::be32(boxes::ISO6) + bytes::be32(boxes::AVC1) + bytes::be32(boxes::MP41),
    )
}

/// `mvhd`: creation and modification time, timescale, duration (unknown, as it must be in a
/// fragmented movie), rate 1.0, volume 1.0, reserved, the unity matrix, pre-defined, next track.
#[verifier::opaque]
pub open spec fn mvhd_box(next_track: u32) -> Seq<u8> {
    boxes::full_box(
        boxes::MVHD,
        0,
        0,
        bytes::zeros(8) + bytes::be32(boxes::TIMESCALE) + bytes::be32(0) + bytes::be32(0x0001_0000)
            + bytes::be16(0x0100) + bytes::zeros(10) + boxes::identity_matrix() + bytes::zeros(24)
            + bytes::be32(next_track),
    )
}

/// The video track.
pub open spec fn video_trak(entry: Seq<u8>, width: u32, height: u32) -> Seq<u8> {
    boxes::trak_box(
        1,
        boxes::TIMESCALE,
        boxes::VIDE,
        boxes::full_box(boxes::VMHD, 0, 1, bytes::zeros(8)),
        entry,
        width,
        height,
        0,
    )
}

/// The audio track.
pub open spec fn audio_trak(entry: Seq<u8>) -> Seq<u8> {
    boxes::trak_box(
        2,
        boxes::OPUS_TIMESCALE,
        boxes::SOUN,
        boxes::full_box(boxes::SMHD, 0, 0, bytes::zeros(4)),
        entry,
        0,
        0,
        0x0100,
    )
}

/// What `moov` holds: the movie header, the video track and the audio track where one is
/// declared, and the `mvex` marking the movie fragmented.
pub open spec fn moov_payload(
    entry: Seq<u8>,
    width: u32,
    height: u32,
    audio: Option<Seq<u8>>,
) -> Seq<u8> {
    match audio {
        None => mvhd_box(2) + video_trak(entry, width, height) + boxes::boxed(
            boxes::MVEX,
            boxes::trex_box(1, 0),
        ),
        Some(a) => mvhd_box(3) + (video_trak(entry, width, height) + audio_trak(a)) + boxes::boxed(
            boxes::MVEX,
            boxes::trex_box(1, 0) + boxes::trex_box(2, 0),
        ),
    }
}

/// The `moov` box.
#[verifier::opaque]
pub open spec fn moov_box(entry: Seq<u8>, width: u32, height: u32, audio: Option<Seq<u8>>) -> Seq<
    u8,
> {
    boxes::boxed(boxes::MOOV, moov_payload(entry, width, height, audio))
}

/// A fragment's header: its number, the track's header and decode time, and its sample run.
pub open spec fn moof_box(seq: u32, tfhd: Seq<u8>, dts: u64, trun: Seq<u8>) -> Seq<u8> {
    boxes::boxed(
        boxes::MOOF,
        boxes::full_box(boxes::MFHD, 0, 0, bytes::be32(seq)) + boxes::boxed(
            boxes::TRAF,
            tfhd + boxes::full_box(boxes::TFDT, 1, 0, bytes::be64(dts)) + trun,
        ),
    )
}

/// The sample flags: a sync sample depends on nothing; any other sets the non-sync bit.
pub open spec fn sample_flags(sync: bool) -> u32 {
    if sync {
        0x0200_0000
    } else {
        0x0101_0000
    }
}

/// A video fragment's header. Its run holds one sample, whose first byte stands past the header
/// and the 8 bytes that open the `mdat` behind it: 108 bytes from the header's start.
#[verifier::opaque]
pub open spec fn video_moof(seq: u32, dts: u64, sync: bool, duration: u32, size: u32) -> Seq<u8> {
    moof_box(
        seq,
        boxes::full_box(boxes::TFHD, 0, 0x02_0000, bytes::be32(1)),
        dts,
        boxes::full_box(
            boxes::TRUN,
            0,
            0x00_0701,
            bytes::be32(1) + bytes::be32(108) + bytes::be32(duration) + bytes::be32(size)
                + bytes::be32(sample_flags(sync)),
        ),
    )
}

/// A video fragment: its header, then its sample.
pub open spec fn video_fragment(seq: u32, s: SampleView, duration: u32) -> Seq<u8> {
    video_moof(seq, s.dts, s.sync, duration, s.data.len() as u32) + boxes::boxed(
        boxes::MDAT,
        s.data,
    )
}

/// The run entries of audio packets: each one's duration and size.
pub open spec fn audio_runs(packets: Seq<PacketView>) -> Seq<u8>
    decreases packets.len(),
{
    if packets.len() == 0 {
        seq![]
    } else {
        audio_runs(packets.drop_last()) + bytes::be32(packets.last().1) + bytes::be32(
            packets.last().0.len() as u32,
        )
    }
}

/// Audio packets one behind another.
pub open spec fn audio_data(packets: Seq<PacketView>) -> Seq<u8>
    decreases packets.len(),
{
    if packets.len() == 0 {
        seq![]
    } else {
        audio_data(packets.drop_last()) + packets.last().0
    }
}

/// What audio packets last together, on the 48 kHz clock.
pub open spec fn audio_ticks(packets: Seq<PacketView>) -> nat
    decreases packets.len(),
{
    if packets.len() == 0 {
        0
    } else {
        audio_ticks(packets.drop_last()) + packets.last().1 as nat
    }
}

/// An audio fragment's header. Every sample is a sync sample with its own duration and size; the
/// first byte of the first stands past the header and the opening of the `mdat`.
#[verifier::opaque]
pub open spec fn audio_moof(seq: u32, dts: u64, packets: Seq<PacketView>) -> Seq<u8> {
    moof_box(
        seq,
        boxes::full_box(
            boxes::TFHD,
            0,
            0x02_0020,
            bytes::be32(2) + bytes::be32(0x0200_0000),
        ),
        dts,
        boxes::full_box(
            boxes::TRUN,
            0,
            0x00_0301,
            bytes::be32(packets.len() as u32) + bytes::be32((100 + 8 * packets.len()) as u32)
                + audio_runs(packets),
        ),
    )
}

/// An audio fragment: its header, then its packets.
pub open spec fn audio_fragment(seq: u32, dts: u64, packets: Seq<PacketView>) -> Seq<u8> {
    audio_moof(seq, dts, packets) + boxes::boxed(boxes::MDAT, audio_data(packets))
}

/// The larger of two times.
pub open spec fn later(a: u64, b: int) -> u64 {
    if a >= b {
        a
    } else {
        b as u64
    }
}

/// A timestamp on the 90 kHz clock, clamped strictly behind the last one.
pub open spec fn decode_time(pts_us: u64, last: Option<u64>) -> u64 {
    let ticks = (pts_us * 90 / 1000) as u64;
    match last {
        Some(l) => if ticks <= l {
            (l + 1) as u64
        } else {
            ticks
        },
        None => ticks,
    }
}

/// The time from a sample to its successor, as far as 32 bits go.
pub open spec fn duration_between(dts: u64, next: u64) -> u32 {
    if next - dts > u32::MAX {
        u32::MAX
    } else {
        (next - dts) as u32
    }
}

/// The order the median is taken in.
pub open spec fn at_most() -> spec_fn(u32, u32) -> bool {
    |a: u32, b: u32| a <= b
}

/// The median of the observed durations: the middle one in order, the later of two. With none
/// observed, a thirtieth of a second.
pub open spec fn median(durations: Seq<u32>) -> u32 {
    if durations.len() == 0 {
        DEFAULT_LAST_DURATION
    } else {
        durations.sort_by(at_most())[durations.len() as int / 2]
    }
}

impl MuxView {
    /// A writer that has written nothing.
    pub open spec fn fresh() -> Self {
        MuxView {
            out: seq![],
            seq: 0,
            init: false,
            pending: None,
            last_dts: None,
            durations: seq![],
            audio: None,
            audio_pending: seq![],
            audio_batch_dts: 0,
            audio_next_dts: 0,
            stats: Mp4Stats {
                samples: 0,
                sync_samples: 0,
                audio_samples: 0,
                bytes: 0,
                duration_us: 0,
            },
        }
    }

    /// The init segment was written.
    pub open spec fn with_init(self, entry: Seq<u8>, width: u32, height: u32) -> Self {
        let segment = ftyp_box() + moov_box(entry, width, height, self.audio);
        MuxView {
            out: self.out + segment,
            init: true,
            stats: Mp4Stats { bytes: (self.stats.bytes + segment.len()) as u64, ..self.stats },
            ..self
        }
    }

    /// A video sample was written.
    pub open spec fn with_video(self, s: SampleView, duration: u32) -> Self {
        let seq = (self.seq + 1) as u32;
        let fragment = video_fragment(seq, s, duration);
        MuxView {
            out: self.out + fragment,
            seq,
            stats: Mp4Stats {
                samples: (self.stats.samples + 1) as u64,
                sync_samples: (self.stats.sync_samples + if s.sync {
                    1int
                } else {
                    0
                }) as u64,
                bytes: (self.stats.bytes + fragment.len()) as u64,
                duration_us: later(self.stats.duration_us, (s.dts + duration) * 1000 / 90),
                ..self.stats
            },
            ..self
        }
    }

    /// A video sample arrived: the one held back is written, with the time between them as its
    /// duration, and this one is held back in its place.
    pub open spec fn with_sample(self, data: Seq<u8>, sync: bool, pts_us: u64) -> Self {
        let dts = decode_time(pts_us, self.last_dts);
        let flushed = match self.pending {
            None => self,
            Some(prev) => {
                let duration = duration_between(prev.dts, dts);
                MuxView { durations: self.durations.push(duration), ..self }.with_video(
                    prev,
                    duration,
                )
            },
        };
        MuxView {
            pending: Some(SampleView { data, sync, dts }),
            last_dts: Some(dts),
            ..flushed
        }
    }

    /// The audio packets held back were written, as one fragment.
    pub open spec fn with_audio_flushed(self) -> Self {
        if self.audio_pending.len() == 0 {
            self
        } else {
            let seq = (self.seq + 1) as u32;
            let fragment = audio_fragment(seq, self.audio_batch_dts, self.audio_pending);
            MuxView {
                out: self.out + fragment,
                seq,
                audio_pending: seq![],
                stats: Mp4Stats {
                    audio_samples: (self.stats.audio_samples + self.audio_pending.len()) as u64,
                    bytes: (self.stats.bytes + fragment.len()) as u64,
                    duration_us: later(
                        self.stats.duration_us,
                        (self.audio_batch_dts + audio_ticks(self.audio_pending)) * 1_000_000
                            / 48_000,
                    ),
                    ..self.stats
                },
                ..self
            }
        }
    }

    /// An audio packet arrived, decoding at `dts`. One that does not follow the packets held back
    /// directly has them written first; the packet that fills the batch has it written.
    pub open spec fn with_packet(self, data: Seq<u8>, dts: u64) -> Self {
        if self.audio is None {
            self
        } else {
            let closed = if self.audio_pending.len() > 0 && dts != self.audio_next_dts {
                self.with_audio_flushed()
            } else {
                self
            };
            let held = MuxView {
                audio_batch_dts: if closed.audio_pending.len() == 0 {
                    dts
                } else {
                    closed.audio_batch_dts
                },
                audio_pending: closed.audio_pending.push((data, opus_samples(data) as u32)),
                audio_next_dts: (dts + opus_samples(data)) as u64,
                ..closed
            };
            if held.audio_pending.len() >= AUDIO_FLUSH_SAMPLES {
                held.with_audio_flushed()
            } else {
                held
            }
        }
    }

    /// The file was closed: everything held back was written, the last video sample with the
    /// median duration.
    pub open spec fn closed_file(self) -> Self {
        let flushed = self.with_audio_flushed();
        match flushed.pending {
            None => flushed,
            Some(s) => MuxView { pending: None, ..flushed }.with_video(s, median(flushed.durations)),
        }
    }

    /// The bytes the samples held back will take.
    pub open spec fn owed(self) -> nat {
        (match self.pending {
            None => 0,
            Some(s) => 108 + s.data.len(),
        }) + if self.audio_pending.len() == 0 {
            0
        } else {
            100 + 8 * self.audio_pending.len() + audio_data(self.audio_pending).len()
        }
    }

    /// The bytes written and held back together.
    pub open spec fn committed(self) -> nat {
        self.stats.bytes as nat + self.owed()
    }

    /// The fragments written and held back together.
    pub open spec fn fragments(self) -> nat {
        self.seq as nat + (if self.pending is Some {
            1nat
        } else {
            0
        }) + (if self.audio_pending.len() > 0 {
            1nat
        } else {
            0
        })
    }

    /// A sample can be timed: its timestamp fits the 90 kHz clock, and what clamping makes of it can
    /// be told in microseconds.
    pub open spec fn timeable(self, pts_us: u64) -> bool {
        &&& pts_us <= MAX_PTS_US
        &&& self.last_dts matches Some(t) ==> t < MAX_TICKS || pts_us * 90 / 1000 > t
    }

    /// The end of the last sample can be told in microseconds.
    pub open spec fn closable(self) -> bool {
        self.pending matches Some(s) ==> s.dts + median(self.durations) <= MAX_TICKS
    }

    /// What every writer keeps: the sample held back is the last one timed; the audio batch is
    /// short of full and contiguous from its start; the counters have room for what is held back.
    pub open spec fn wf(self) -> bool {
        &&& self.fragments() <= u32::MAX
        &&& self.committed() <= u64::MAX
        &&& self.last_dts == match self.pending {
            Some(s) => Some(s.dts),
            None => None,
        }
        &&& self.last_dts matches Some(t) ==> t <= MAX_TICKS
        &&& self.audio_pending.len() < AUDIO_FLUSH_SAMPLES
        &&& self.audio_pending.len() > 0 ==> self.audio_batch_dts + audio_ticks(self.audio_pending)
            == self.audio_next_dts
        &&& self.audio_next_dts <= MAX_AUDIO_TICKS
        &&& self.stats.samples <= self.seq
        &&& self.stats.sync_samples <= self.stats.samples
        &&& self.stats.audio_samples <= AUDIO_FLUSH_SAMPLES * self.seq
    }
}

/// Sort in ascending order with `slice::sort_unstable` of the standard library: the result is
/// ordered and holds the same values, each as often.
#[verifier::external_body]
fn sort_ascending(v: &mut Vec<u32>)
    ensures
        final(v)@.to_multiset() == old(v)@.to_multiset(),
        forall|i: int, j: int| 0 <= i <= j < final(v)@.len() ==> final(v)@[i] <= final(v)@[j],
{
    v.sort_unstable();
}

/// One buffered access unit awaiting its duration (known when the next one arrives).
struct PendingSample {
    data: Vec<u8>,
    sync: bool,
    dts: u64,
}

/// Codec-agnostic fragment writer: `ftyp`+`moov` once, then one `moof`+`mdat` pair per video
/// sample, each anchored at its wall-clock decode time via `tfdt`, and one per batch of audio
/// samples.
pub struct FragmentWriter {
    out: Vec<u8>,
    seq: u32,
    wrote_init: bool,
    pending: Option<PendingSample>,
    last_dts: Option<u64>,
    durations: Vec<u32>,
    audio: Option<AudioTrackConfig>,
    /// Pending audio packets with their durations; contiguous from `audio_batch_dts`.
    audio_pending: Vec<(Vec<u8>, u32)>,
    audio_batch_dts: u64,
    audio_next_dts: u64,
    stats: Mp4Stats,
}

spec fn packets_view(v: Seq<(Vec<u8>, u32)>) -> Seq<PacketView> {
    v.map_values(|p: (Vec<u8>, u32)| (p.0@, p.1))
}

impl View for FragmentWriter {
    type V = MuxView;

    closed spec fn view(&self) -> MuxView {
        MuxView {
            out: self.out@,
            seq: self.seq,
            init: self.wrote_init,
            pending: match self.pending {
                None => None,
                Some(s) => Some(SampleView { data: s.data@, sync: s.sync, dts: s.dts }),
            },
            last_dts: self.last_dts,
            durations: self.durations@,
            audio: match self.audio {
                None => None,
                Some(a) => Some(a.sample_entry@),
            },
            audio_pending: packets_view(self.audio_pending@),
            audio_batch_dts: self.audio_batch_dts,
            audio_next_dts: self.audio_next_dts,
            stats: self.stats,
        }
    }
}

pub proof fn moof_lengths(seq: u32, dts: u64, sync: bool, duration: u32, size: u32)
    ensures
        video_moof(seq, dts, sync, duration, size).len() == 100,
{
    reveal(video_moof);
}

proof fn runs_length(packets: Seq<PacketView>)
    ensures
        audio_runs(packets).len() == 8 * packets.len(),
    decreases packets.len(),
{
    if packets.len() > 0 {
        runs_length(packets.drop_last());
    }
}

pub proof fn audio_moof_length(seq: u32, dts: u64, packets: Seq<PacketView>)
    ensures
        audio_moof(seq, dts, packets).len() == 92 + 8 * packets.len(),
{
    reveal(audio_moof);
    runs_length(packets);
}

/// A video fragment takes 108 bytes besides its sample.
pub proof fn video_fragment_length(seq: u32, s: SampleView, duration: u32)
    ensures
        video_fragment(seq, s, duration).len() == 108 + s.data.len(),
{
    moof_lengths(seq, s.dts, s.sync, duration, s.data.len() as u32);
}

/// An audio fragment takes 100 bytes, and 8 for each packet, besides its packets.
pub proof fn audio_fragment_length(seq: u32, dts: u64, packets: Seq<PacketView>)
    ensures
        audio_fragment(seq, dts, packets).len() == 100 + 8 * packets.len() + audio_data(
            packets,
        ).len(),
{
    audio_moof_length(seq, dts, packets);
}

/// Write a fragment's header.
fn mk_moof(seq: u32, tfhd: &[u8], dts: u64, trun: &[u8]) -> (b: Vec<u8>)
    ensures
        b@ == moof_box(seq, tfhd@, dts, trun@),
{
    let mut tfdt_p: Vec<u8> = Vec::new();
    bytes::push_be64(&mut tfdt_p, dts);
    assert(tfdt_p@ =~= bytes::be64(dts));
    let tfdt = boxes::mk_full_box(boxes::TFDT, 1, 0, tfdt_p.as_slice());
    let mut traf_p: Vec<u8> = Vec::new();
    bytes::push_all(&mut traf_p, tfhd);
    bytes::push_all(&mut traf_p, tfdt.as_slice());
    bytes::push_all(&mut traf_p, trun);
    assert(traf_p@ =~= tfhd@ + tfdt@ + trun@);
    let traf = boxes::mk_box(boxes::TRAF, traf_p.as_slice());
    let mut mfhd_p: Vec<u8> = Vec::new();
    bytes::push_be32(&mut mfhd_p, seq);
    assert(mfhd_p@ =~= bytes::be32(seq));
    let mut moof_p = boxes::mk_full_box(boxes::MFHD, 0, 0, mfhd_p.as_slice());
    bytes::push_all(&mut moof_p, traf.as_slice());
    boxes::mk_box(boxes::MOOF, moof_p.as_slice())
}

/// Write a video fragment's header.
fn mk_video_moof(seq: u32, dts: u64, sync: bool, duration: u32, size: u32) -> (b: Vec<u8>)
    ensures
        b@ == video_moof(seq, dts, sync, duration, size),
{
    proof {
        reveal(video_moof);
    }
    let mut tfhd_p: Vec<u8> = Vec::new();
    bytes::push_be32(&mut tfhd_p, 1);
    assert(tfhd_p@ =~= bytes::be32(1));
    let tfhd = boxes::mk_full_box(boxes::TFHD, 0, 0x02_0000, tfhd_p.as_slice());
    let flags: u32 = if sync {
        0x0200_0000
    } else {
        0x0101_0000
    };
    let mut trun_p: Vec<u8> = Vec::new();
    bytes::push_be32(&mut trun_p, 1);
    bytes::push_be32(&mut trun_p, 108);
    bytes::push_be32(&mut trun_p, duration);
    bytes::push_be32(&mut trun_p, size);
    bytes::push_be32(&mut trun_p, flags);
    assert(trun_p@ =~= bytes::be32(1) + bytes::be32(108) + bytes::be32(duration) + bytes::be32(size)
        + bytes::be32(sample_flags(sync)));
    let trun = boxes::mk_full_box(boxes::TRUN, 0, 0x00_0701, trun_p.as_slice());
    mk_moof(seq, tfhd.as_slice(), dts, trun.as_slice())
}

impl FragmentWriter {
    /// A writer that has written nothing.
    pub fn new() -> (w: Self)
        ensures
            w@ == MuxView::fresh(),
            w@.wf(),
    {
        let w = FragmentWriter {
            out: Vec::new(),
            seq: 0,
            wrote_init: false,
            pending: None,
            last_dts: None,
            durations: Vec::new(),
            audio: None,
            audio_pending: Vec::new(),
            audio_batch_dts: 0,
            audio_next_dts: 0,
            stats: Mp4Stats {
                samples: 0,
                sync_samples: 0,
                audio_samples: 0,
                bytes: 0,
                duration_us: 0,
            },
        };
        assert(w@.out =~= seq![]);
        assert(w@.durations =~= seq![]);
        assert(w@.audio_pending =~= seq![]);
        w
    }

    /// Declare the audio track; must precede `write_init`.
    pub fn with_audio(self, cfg: AudioTrackConfig) -> (w: Self)
        ensures
            w@ == (MuxView { audio: Some(cfg.sample_entry@), ..self@ }),
    {
        FragmentWriter { audio: Some(cfg), ..self }
    }

    /// The init segment was written.
    pub fn init_written(&self) -> (b: bool)
        ensures
            b == self@.init,
    {
        self.wrote_init
    }

    /// Counters for the fragments written so far (the buffered pending sample is not yet counted;
    /// `finish` folds it in).
    pub fn stats(&self) -> (s: Mp4Stats)
        ensures
            s == self@.stats,
    {
        self.stats
    }

    /// Hand over the bytes written since the last call.
    pub fn take_output(&mut self) -> (out: Vec<u8>)
        ensures
            out@ == old(self)@.out,
            final(self)@ == (MuxView { out: seq![], ..old(self)@ }),
    {
        let mut out: Vec<u8> = Vec::new();
        std::mem::swap(&mut out, &mut self.out);
        assert(self@.out =~= seq![]);
        out
    }

    /// Whether a sample with this timestamp can be timed.
    pub fn is_timeable(&self, pts_us: u64) -> (b: bool)
        ensures
            b == self@.timeable(pts_us),
    {
        if pts_us > MAX_PTS_US {
            return false;
        }
        match self.last_dts {
            Some(t) => t < MAX_TICKS || pts_us * 90 / 1000 > t,
            None => true,
        }
    }

    /// Whether the end of the last sample can be told.
    pub fn is_closable(&self) -> (b: bool)
        ensures
            b == self@.closable(),
    {
        match &self.pending {
            Some(s) => s.dts <= MAX_TICKS && self.median_duration() as u64 <= MAX_TICKS - s.dts,
            None => true,
        }
    }

    /// The bytes written and held back together.
    pub fn committed(&self) -> (n: u64)
        requires
            self@.wf(),
        ensures
            n == self@.committed(),
    {
        let mut n: u64 = self.stats.bytes;
        match &self.pending {
            None => {},
            Some(s) => {
                assert(108 + s.data@.len() <= self@.owed());
                n += 108 + s.data.len() as u64;
            },
        }
        let mut i: usize = 0;
        let ghost packets = self@.audio_pending;
        if self.audio_pending.len() > 0 {
            n += 100 + 8 * self.audio_pending.len() as u64;
            let ghost base = n;
            assert(packets.take(0) =~= seq![]);
            while i < self.audio_pending.len()
                invariant
                    i <= self.audio_pending.len(),
                    packets == packets_view(self.audio_pending@),
                    n == base + audio_data(packets.take(i as int)).len(),
                    base + audio_data(packets).len() <= u64::MAX,
                decreases self.audio_pending.len() - i,
            {
                proof {
                    audio_data_prefix(packets, i as int);
                    audio_data_prefix(packets, i + 1);
                }
                assert(packets[i as int].0 == self.audio_pending@[i as int].0@);
                n += self.audio_pending[i].0.len() as u64;
                i += 1;
            }
            assert(packets.take(i as int) =~= packets);
        }
        n
    }

    /// The fragments written and held back together.
    pub fn fragments(&self) -> (n: u32)
        requires
            self@.wf(),
        ensures
            n == self@.fragments(),
    {
        let mut n: u32 = self.seq;
        if self.pending.is_some() {
            n += 1;
        }
        assert(self@.audio_pending.len() == self.audio_pending@.len());
        if self.audio_pending.len() > 0 {
            n += 1;
        }
        n
    }

    /// Write `ftyp` + `moov` (the video track, the audio track when declared, and the
    /// `mvex`/`trex` marking the movie fragmented). Must be called once, before the first sample.
    pub fn write_init(&mut self, cfg: &TrackConfig)
        requires
            old(self)@.wf(),
            old(self)@.committed() + 896 + cfg.sample_entry@.len() + (match old(self)@.audio {
                None => 0,
                Some(a) => a.len(),
            }) <= u64::MAX,
        ensures
            final(self)@ == old(self)@.with_init(cfg.sample_entry@, cfg.width, cfg.height),
            final(self)@.wf(),
    {
        let mut ftyp_p: Vec<u8> = Vec::new();
        bytes::push_be32(&mut ftyp_p, boxes::ISOM);
        bytes::push_be32(&mut ftyp_p, 0x200);
        bytes::push_be32(&mut ftyp_p, boxes::ISOM);
        bytes::push_be32(&mut ftyp_p, boxes::ISO5);
        bytes::push_be32(&mut ftyp_p, boxes::ISO6);
        bytes::push_be32(&mut ftyp_p, boxes::AVC1);
        bytes::push_be32(&mut ftyp_p, boxes::MP41);
        assert(ftyp_p@ =~= bytes::be32(boxes::ISOM) + bytes::be32(0x200) + bytes::be32(boxes::ISOM)
            + bytes::be32(boxes::ISO5) + bytes::be32(boxes::ISO6) + bytes::be32(boxes::AVC1)
            + bytes::be32(boxes::MP41));
        let ftyp = boxes::mk_box(boxes::FTYP, ftyp_p.as_slice());
        assert(ftyp@ == ftyp_box()) by {
            reveal(ftyp_box);
        }
        let moov = mk_moov(cfg, &self.audio);
        proof {
            moov_length(cfg.sample_entry@, cfg.width, cfg.height, self@.audio);
        }
        let ghost before = self@;
        bytes::push_all(&mut self.out, ftyp.as_slice());
        bytes::push_all(&mut self.out, moov.as_slice());
        assert(self@.out =~= before.out + (ftyp@ + moov@));
        self.stats.bytes = self.stats.bytes + ftyp.len() as u64 + moov.len() as u64;
        self.wrote_init = true;
    }

    /// Queue one sample at `pts_us` (wall-clock microseconds since recording start), writing the
    /// previously buffered sample with its now-known duration. Timestamps are clamped strictly
    /// monotonic so a repeated or reordered clock can never give a zero or negative duration.
    pub fn push_sample(&mut self, data: Vec<u8>, sync: bool, pts_us: u64)
        requires
            old(self)@.wf(),
            old(self)@.timeable(pts_us),
            old(self)@.fragments() < u32::MAX,
            old(self)@.committed() + 108 + data@.len() <= u64::MAX,
        ensures
            final(self)@ == old(self)@.with_sample(data@, sync, pts_us),
            final(self)@.wf(),
    {
        let mut dts: u64 = pts_us * 90 / 1000;
        match self.last_dts {
            Some(last) => {
                if dts <= last {
                    dts = last + 1;
                }
            },
            None => {},
        }
        assert(dts == decode_time(pts_us, self@.last_dts));
        self.last_dts = Some(dts);
        let ghost before = self@;
        match self.pending.take() {
            Some(prev) => {
                let gap: u64 = dts - prev.dts;
                let duration: u32 = if gap > u32::MAX as u64 {
                    u32::MAX
                } else {
                    gap as u32
                };
                self.durations.push(duration);
                proof {
                    video_fragment_length(
                        (before.seq + 1) as u32,
                        before.pending.unwrap(),
                        duration,
                    );
                }
                self.write_fragment(&prev, duration);
            },
            None => {},
        }
        self.pending = Some(PendingSample { data, sync, dts });
    }

    /// Median of the observed inter-frame durations (a thirtieth of a second when fewer than two
    /// frames were pushed), used to close the final sample.
    fn median_duration(&self) -> (d: u32)
        ensures
            d == median(self@.durations),
    {
        if self.durations.len() == 0 {
            return DEFAULT_LAST_DURATION;
        }
        let mut sorted = self.durations.clone();
        assert(sorted@ =~= self.durations@);
        sort_ascending(&mut sorted);
        proof {
            let d = self.durations@;
            d.lemma_sort_by_ensures(at_most());
            sorted@.to_multiset_ensures();
            d.to_multiset_ensures();
            assert(vstd::relations::sorted_by(sorted@, at_most()));
            vstd::seq_lib::lemma_sorted_unique(sorted@, d.sort_by(at_most()), at_most());
        }
        sorted[sorted.len() / 2]
    }

    fn write_fragment(&mut self, s: &PendingSample, duration: u32)
        requires
            old(self)@.seq < u32::MAX,
            old(self)@.stats.samples <= old(self)@.seq,
            old(self)@.stats.sync_samples <= old(self)@.stats.samples,
            old(self)@.stats.bytes + 108 + s.data@.len() <= u64::MAX,
            (s.dts + duration) * 1000 <= u64::MAX,
        ensures
            final(self)@ == old(self)@.with_video(
                SampleView { data: s.data@, sync: s.sync, dts: s.dts },
                duration,
            ),
    {
        self.seq = self.seq + 1;
        let moof = mk_video_moof(self.seq, s.dts, s.sync, duration, s.data.len() as u32);
        let mdat = boxes::mk_box(boxes::MDAT, s.data.as_slice());
        proof {
            moof_lengths(self.seq, s.dts, s.sync, duration, s.data@.len() as u32);
        }
        let ghost before = self@;
        bytes::push_all(&mut self.out, moof.as_slice());
        bytes::push_all(&mut self.out, mdat.as_slice());
        assert(self@.out =~= before.out + (moof@ + mdat@));
        self.stats.samples = self.stats.samples + 1;
        if s.sync {
            self.stats.sync_samples = self.stats.sync_samples + 1;
        }
        self.stats.bytes = self.stats.bytes + moof.len() as u64 + mdat.len() as u64;
        let end: u64 = (s.dts + duration as u64) * 1000 / 90;
        if end > self.stats.duration_us {
            self.stats.duration_us = end;
        }
    }

    /// Queue one audio packet decoding at `dts` on the 48 kHz clock. A packet that does not follow
    /// the pending ones directly (a gap in the stream) closes their fragment first, so every
    /// fragment's samples are contiguous from its `tfdt`.
    pub fn push_audio(&mut self, data: Vec<u8>, dts: u64)
        requires
            old(self)@.wf(),
            dts + opus_samples(data@) <= MAX_AUDIO_TICKS,
            old(self)@.fragments() < u32::MAX,
            old(self)@.committed() + 108 + data@.len() <= u64::MAX,
        ensures
            final(self)@ == old(self)@.with_packet(data@, dts),
            final(self)@.wf(),
    {
        if self.audio.is_none() {
            return;
        }
        let samples: u32 = opus_packet_samples(data.as_slice());
        proof {
            audio_fragment_length(
                (self@.seq + 1) as u32,
                self@.audio_batch_dts,
                self@.audio_pending,
            );
        }
        assert(self@.audio_pending.len() == self.audio_pending@.len());
        if self.audio_pending.len() > 0 && dts != self.audio_next_dts {
            self.flush_audio();
        }
        assert(self@.audio_pending.len() == self.audio_pending@.len());
        let ghost closed = self@;
        assert(closed.committed() == old(self)@.committed());
        if self.audio_pending.len() == 0 {
            self.audio_batch_dts = dts;
        }
        self.audio_pending.push((data, samples));
        self.audio_next_dts = dts + samples as u64;
        assert(self@.audio_pending =~= closed.audio_pending.push((data@, samples)));
        proof {
            assert(self@.audio_pending.drop_last() =~= closed.audio_pending);
            assert(audio_data(self@.audio_pending) == audio_data(closed.audio_pending) + data@);
            assert(audio_ticks(self@.audio_pending) == audio_ticks(closed.audio_pending) + samples);
            if closed.audio_pending.len() == 0 {
                assert(audio_data(closed.audio_pending).len() == 0);
                assert(audio_ticks(closed.audio_pending) == 0);
            }
            assert(self@.audio_batch_dts + audio_ticks(self@.audio_pending)
                == self@.audio_next_dts);
            assert(self@.committed() <= old(self)@.committed() + 108 + data@.len());
            audio_fragment_length(
                (self@.seq + 1) as u32,
                self@.audio_batch_dts,
                self@.audio_pending,
            );
        }
        let ghost held = self@;
        if self.audio_pending.len() >= AUDIO_FLUSH_SAMPLES {
            self.flush_audio();
            assert(self@.committed() == held.committed());
            assert(self@.fragments() == held.fragments());
        }
        assert(self@.committed() <= u64::MAX);
        assert(self@.fragments() <= u32::MAX);
    }

    /// Write the pending audio packets as one fragment of track 2, every sample a sync sample with
    /// its own duration and size.
    fn flush_audio(&mut self)
        requires
            old(self)@.audio_pending.len() > 0 ==> {
                &&& old(self)@.seq < u32::MAX
                &&& old(self)@.audio_pending.len() <= AUDIO_FLUSH_SAMPLES
                &&& old(self)@.stats.audio_samples <= AUDIO_FLUSH_SAMPLES * old(self)@.seq
                &&& old(self)@.stats.bytes + 100 + 8 * old(self)@.audio_pending.len() + audio_data(
                    old(self)@.audio_pending,
                ).len() <= u64::MAX
                &&& old(self)@.audio_batch_dts + audio_ticks(old(self)@.audio_pending)
                    <= MAX_AUDIO_TICKS
            },
        ensures
            final(self)@ == old(self)@.with_audio_flushed(),
    {
        assert(self@.audio_pending.len() == self.audio_pending@.len());
        if self.audio_pending.len() == 0 {
            return;
        }
        let ghost before = self@;
        let ghost packets = self@.audio_pending;
        self.seq = self.seq + 1;
        let mut samples: Vec<(Vec<u8>, u32)> = Vec::new();
        std::mem::swap(&mut samples, &mut self.audio_pending);
        assert(self@.audio_pending =~= seq![]);

        let mut runs: Vec<u8> = Vec::new();
        let mut payload: Vec<u8> = Vec::new();
        let mut end: u64 = self.audio_batch_dts;
        let mut i: usize = 0;
        assert(packets.take(0) =~= seq![]);
        while i < samples.len()
            invariant
                i <= samples.len(),
                packets == packets_view(samples@),
                runs@ == audio_runs(packets.take(i as int)),
                payload@ == audio_data(packets.take(i as int)),
                end == before.audio_batch_dts + audio_ticks(packets.take(i as int)),
                before.audio_batch_dts + audio_ticks(packets) <= MAX_AUDIO_TICKS,
            decreases samples.len() - i,
        {
            proof {
                audio_data_prefix(packets, i as int);
                audio_data_prefix(packets, i + 1);
                assert(packets.take(i + 1).drop_last() =~= packets.take(i as int));
                assert(packets[i as int] == (samples@[i as int].0@, samples@[i as int].1));
            }
            let ghost r = runs@;
            bytes::push_be32(&mut runs, samples[i].1);
            bytes::push_be32(&mut runs, samples[i].0.len() as u32);
            bytes::push_all(&mut payload, samples[i].0.as_slice());
            end += samples[i].1 as u64;
            assert(runs@ =~= audio_runs(packets.take(i + 1)));
            i += 1;
        }
        assert(packets.take(i as int) =~= packets);

        let moof = mk_audio_moof(
            self.seq,
            self.audio_batch_dts,
            samples.len() as u32,
            runs.as_slice(),
            Ghost(packets),
        );
        let mdat = boxes::mk_box(boxes::MDAT, payload.as_slice());
        proof {
            audio_moof_length(self.seq, self.audio_batch_dts, packets);
        }
        let ghost mid = self@;
        bytes::push_all(&mut self.out, moof.as_slice());
        bytes::push_all(&mut self.out, mdat.as_slice());
        assert(self@.out =~= mid.out + (moof@ + mdat@));
        self.stats.audio_samples = self.stats.audio_samples + samples.len() as u64;
        self.stats.bytes = self.stats.bytes + moof.len() as u64 + mdat.len() as u64;
        let end_us: u64 = end * 1_000_000 / 48_000;
        if end_us > self.stats.duration_us {
            self.stats.duration_us = end_us;
        }
    }

    /// Write the pending audio and the final buffered video sample, closed with the median
    /// observed inter-frame duration (its successor never arrives), and return the aggregate
    /// counters with the bytes not handed over yet.
    pub fn finish(self) -> (r: (Mp4Stats, Vec<u8>))
        requires
            self@.wf(),
            self@.closable(),
        ensures
            r.0 == self@.closed_file().stats,
            r.1@ == self@.closed_file().out,
    {
        let mut w = self;
        proof {
            audio_fragment_length((w@.seq + 1) as u32, w@.audio_batch_dts, w@.audio_pending);
        }
        w.flush_audio();
        match w.pending.take() {
            Some(prev) => {
                let d: u32 = w.median_duration();
                w.write_fragment(&prev, d);
            },
            None => {},
        }
        (w.stats, w.out)
    }
}

proof fn audio_data_prefix(packets: Seq<PacketView>, i: int)
    requires
        0 <= i <= packets.len(),
    ensures
        audio_data(packets.take(i)).len() <= audio_data(packets).len(),
        audio_ticks(packets.take(i)) <= audio_ticks(packets),
        i < packets.len() ==> audio_data(packets.take(i + 1)) == audio_data(packets.take(i))
            + packets[i].0,
        i < packets.len() ==> audio_ticks(packets.take(i + 1)) == audio_ticks(packets.take(i))
            + packets[i].1,
    decreases packets.len() - i,
{
    if i < packets.len() {
        assert(packets.take(i + 1).drop_last() =~= packets.take(i));
        audio_data_prefix(packets, i + 1);
    } else {
        assert(packets.take(i) =~= packets);
    }
}

/// Write an audio fragment's header from its run entries.
fn mk_audio_moof(
    seq: u32,
    dts: u64,
    count: u32,
    runs: &[u8],
    Ghost(packets): Ghost<Seq<PacketView>>,
) -> (b: Vec<u8>)
    requires
        count == packets.len(),
        count <= AUDIO_FLUSH_SAMPLES,
        runs@ == audio_runs(packets),
    ensures
        b@ == audio_moof(seq, dts, packets),
{
    proof {
        reveal(audio_moof);
    }
    let mut tfhd_p: Vec<u8> = Vec::new();
    bytes::push_be32(&mut tfhd_p, 2);
    bytes::push_be32(&mut tfhd_p, 0x0200_0000);
    assert(tfhd_p@ =~= bytes::be32(2) + bytes::be32(0x0200_0000));
    let tfhd = boxes::mk_full_box(boxes::TFHD, 0, 0x02_0020, tfhd_p.as_slice());
    let mut trun_p: Vec<u8> = Vec::new();
    bytes::push_be32(&mut trun_p, count);
    bytes::push_be32(&mut trun_p, 100 + 8 * count);
    bytes::push_all(&mut trun_p, runs);
    assert(trun_p@ =~= bytes::be32(packets.len() as u32) + bytes::be32(
        (100 + 8 * packets.len()) as u32,
    ) + audio_runs(packets));
    let trun = boxes::mk_full_box(boxes::TRUN, 0, 0x00_0301, trun_p.as_slice());
    mk_moof(seq, tfhd.as_slice(), dts, trun.as_slice())
}

pub proof fn moov_length(entry: Seq<u8>, width: u32, height: u32, audio: Option<Seq<u8>>)
    ensures
        ftyp_box().len() == 36,
        moov_box(entry, width, height, audio).len() == match audio {
            None => 494 + entry.len(),
            Some(a) => 860 + entry.len() + a.len(),
        },
{
    reveal(ftyp_box);
    reveal(moov_box);
    reveal(mvhd_box);
    boxes::trak_length(
        1,
        boxes::TIMESCALE,
        boxes::VIDE,
        boxes::full_box(boxes::VMHD, 0, 1, bytes::zeros(8)),
        entry,
        width,
        height,
        0,
    );
    match audio {
        None => {},
        Some(a) => {
            boxes::trak_length(
                2,
                boxes::OPUS_TIMESCALE,
                boxes::SOUN,
                boxes::full_box(boxes::SMHD, 0, 0, bytes::zeros(4)),
                a,
                0,
                0,
                0x0100,
            );
        },
    }
}

fn mk_mvhd(next_track: u32) -> (b: Vec<u8>)
    ensures
        b@ == mvhd_box(next_track),
{
    proof {
        reveal(mvhd_box);
    }
    let mut p: Vec<u8> = Vec::new();
    bytes::push_zeros(&mut p, 8);
    bytes::push_be32(&mut p, boxes::TIMESCALE);
    bytes::push_be32(&mut p, 0);
    bytes::push_be32(&mut p, 0x0001_0000);
    bytes::push_be16(&mut p, 0x0100);
    bytes::push_zeros(&mut p, 10);
    boxes::push_identity_matrix(&mut p);
    bytes::push_zeros(&mut p, 24);
    bytes::push_be32(&mut p, next_track);
    assert(p@ =~= bytes::zeros(8) + bytes::be32(boxes::TIMESCALE) + bytes::be32(0) + bytes::be32(
        0x0001_0000,
    ) + bytes::be16(0x0100) + bytes::zeros(10) + boxes::identity_matrix() + bytes::zeros(24)
        + bytes::be32(next_track));
    boxes::mk_full_box(boxes::MVHD, 0, 0, p.as_slice())
}

/// Write the `moov`.
fn mk_moov(cfg: &TrackConfig, audio: &Option<AudioTrackConfig>) -> (b: Vec<u8>)
    ensures
        b@ == moov_box(
            cfg.sample_entry@,
            cfg.width,
            cfg.height,
            match *audio {
                None => None,
                Some(a) => Some(a.sample_entry@),
            },
        ),
{
    proof {
        reveal(moov_box);
    }
    let mut vmhd_p: Vec<u8> = Vec::new();
    bytes::push_zeros(&mut vmhd_p, 8);
    assert(vmhd_p@ =~= bytes::zeros(8));
    let vmhd = boxes::mk_full_box(boxes::VMHD, 0, 1, vmhd_p.as_slice());
    let mut traks = boxes::trak(
        1,
        boxes::TIMESCALE,
        boxes::VIDE,
        vmhd.as_slice(),
        cfg.sample_entry.as_slice(),
        cfg.width,
        cfg.height,
        0,
    );
    let mut mvex_p = boxes::trex(1, 0);
    let next_track: u32 = match audio {
        None => 2,
        Some(a) => {
            let mut smhd_p: Vec<u8> = Vec::new();
            bytes::push_zeros(&mut smhd_p, 4);
            assert(smhd_p@ =~= bytes::zeros(4));
            let smhd = boxes::mk_full_box(boxes::SMHD, 0, 0, smhd_p.as_slice());
            let trak = boxes::trak(
                2,
                boxes::OPUS_TIMESCALE,
                boxes::SOUN,
                smhd.as_slice(),
                a.sample_entry.as_slice(),
                0,
                0,
                0x0100,
            );
            bytes::push_all(&mut traks, trak.as_slice());
            bytes::push_all(&mut mvex_p, boxes::trex(2, 0).as_slice());
            3
        },
    };
    let mvex = boxes::mk_box(boxes::MVEX, mvex_p.as_slice());
    let mut moov_p = mk_mvhd(next_track);
    bytes::push_all(&mut moov_p, traks.as_slice());
    bytes::push_all(&mut moov_p, mvex.as_slice());
    assert(moov_p@ =~= mvhd_box(next_track) + traks@ + mvex@);
    boxes::mk_box(boxes::MOOV, moov_p.as_slice())
}

/// One converted access unit ready for the fragment writer.
pub struct BuiltSample {
    pub data: Vec<u8>,
    pub sync: bool,
}

/// NAL units as an AVCC sample: each behind its length.
pub open spec fn avcc_sample(nals: Seq<Seq<u8>>) -> Seq<u8>
    decreases nals.len(),
{
    if nals.len() == 0 {
        seq![]
    } else {
        avcc_sample(nals.drop_last()) + bytes::be32(nals.last().len() as u32) + nals.last()
    }
}

/// A NAL unit's type: the low five bits of its first byte.
pub open spec fn nal_type(nal: Seq<u8>) -> u8 {
    nal[0] % 32
}

/// One of the units is of this type.
pub open spec fn has_type(nals: Seq<Seq<u8>>, t: u8) -> bool {
    exists|i: int| 0 <= i < nals.len() && #[trigger] nal_type(nals[i]) == t
}

/// The last unit of a type, or `held` where there is none.
pub open spec fn last_of_type(nals: Seq<Seq<u8>>, t: u8, held: Option<Seq<u8>>) -> Option<Seq<u8>>
    decreases nals.len(),
{
    if nals.len() == 0 {
        held
    } else if nal_type(nals.last()) == t {
        Some(nals.last())
    } else {
        last_of_type(nals.drop_last(), t, held)
    }
}

/// An instantaneous-refresh slice.
pub const NAL_IDR: u8 = 5;

/// A slice of any other picture.
pub const NAL_SLICE: u8 = 1;

/// A sequence parameter set.
pub const NAL_SPS: u8 = 7;

/// A picture parameter set.
pub const NAL_PPS: u8 = 8;

/// The `avcC` record: version, then profile, compatibility and level straight from the SPS,
/// 4-byte NAL lengths, one SPS and one PPS, each behind its 16-bit length.
pub open spec fn avcc_box(sps: Seq<u8>, pps: Seq<u8>) -> Seq<u8> {
    boxes::boxed(
        boxes::AVCC,
        seq![1u8, sps[1], sps[2], sps[3], 0xff, 0xe1] + bytes::be16(sps.len() as u16) + sps + seq![
            1u8,
        ] + bytes::be16(pps.len() as u16) + pps,
    )
}

/// The `avc1` sample entry: reserved, data reference, pre-defined and reserved, width and height,
/// both resolutions at 72 dpi, reserved, frame count, compressor name, depth 24, pre-defined, then
/// the `avcC` record.
pub open spec fn avc1_entry(sps: Seq<u8>, pps: Seq<u8>, width: u32, height: u32) -> Seq<u8> {
    boxes::boxed(
        boxes::AVC1,
        bytes::zeros(6) + bytes::be16(1) + bytes::zeros(16) + bytes::be16(width as u16)
            + bytes::be16(height as u16) + bytes::be32(0x0048_0000) + bytes::be32(0x0048_0000)
            + bytes::zeros(4) + bytes::be16(1) + bytes::zeros(32) + bytes::be16(0x0018)
            + bytes::be16(0xffff) + avcc_box(sps, pps),
    )
}

/// The parameter sets captured so far, and whether the stream has reached an IDR.
pub struct BuilderView {
    pub sps: Option<Seq<u8>>,
    pub pps: Option<Seq<u8>>,
    pub seen_idr: bool,
}

/// H.264-specific front end: captures SPS/PPS from the stream, gates output on the first IDR,
/// converts Annex-B access units to AVCC samples, and builds the `avc1` sample entry.
pub struct H264SampleBuilder {
    sps: Option<Vec<u8>>,
    pps: Option<Vec<u8>>,
    seen_idr: bool,
}

spec fn bytes_view(v: Option<Vec<u8>>) -> Option<Seq<u8>> {
    match v {
        None => None,
        Some(b) => Some(b@),
    }
}

impl View for H264SampleBuilder {
    type V = BuilderView;

    closed spec fn view(&self) -> BuilderView {
        BuilderView {
            sps: bytes_view(self.sps),
            pps: bytes_view(self.pps),
            seen_idr: self.seen_idr,
        }
    }
}

impl Default for H264SampleBuilder {
    fn default() -> (b: Self)
        ensures
            b@ == (BuilderView { sps: None, pps: None, seen_idr: false }),
    {
        Self::new()
    }
}

impl H264SampleBuilder {
    /// A builder that has seen neither a parameter set nor an IDR.
    pub fn new() -> (b: Self)
        ensures
            b@ == (BuilderView { sps: None, pps: None, seen_idr: false }),
    {
        H264SampleBuilder { sps: None, pps: None, seen_idr: false }
    }

    /// Both parameter sets were captured.
    pub fn have_parameter_sets(&self) -> (b: bool)
        ensures
            b == (self@.sps is Some && self@.pps is Some),
    {
        self.sps.is_some() && self.pps.is_some()
    }

    /// The captured SPS keeps its frame size within 32 bits, as far as one was captured.
    pub fn size_in_range(&self) -> (b: bool)
        ensures
            b == (self@.sps matches Some(s) ==> sps::sps_size(s) != sps::SpsSize::OutOfRange),
    {
        match &self.sps {
            None => true,
            Some(s) => sps::read_sps(s.as_slice()) != sps::SpsSize::OutOfRange,
        }
    }

    /// Convert one Annex-B access unit into a length-prefixed AVCC sample, harvesting SPS/PPS on
    /// the way. Returns `None` for an access unit with no slice data (bare parameter sets), and for
    /// one ahead of the first IDR, which nothing could decode. `sync` is true when the access unit
    /// contains an IDR slice.
    pub fn build_sample(&mut self, annexb: &[u8]) -> (r: Option<BuiltSample>)
        ensures
            final(self)@.sps == last_of_type(
                annexb::annexb_nals(annexb@),
                NAL_SPS,
                old(self)@.sps,
            ),
            final(self)@.pps == last_of_type(
                annexb::annexb_nals(annexb@),
                NAL_PPS,
                old(self)@.pps,
            ),
            final(self)@.seen_idr == (old(self)@.seen_idr || has_type(
                annexb::annexb_nals(annexb@),
                NAL_IDR,
            )),
            r is Some <==> has_type(annexb::annexb_nals(annexb@), NAL_IDR) || (old(self)@.seen_idr
                && has_type(annexb::annexb_nals(annexb@), NAL_SLICE)),
            r matches Some(s) ==> s.data@ == avcc_sample(annexb::annexb_nals(annexb@)) && s.sync
                == has_type(annexb::annexb_nals(annexb@), NAL_IDR),
    {
        let nals = split_annexb(annexb);
        let ghost all = annexb::annexb_nals(annexb@);
        let mut data: Vec<u8> = Vec::new();
        let mut sync: bool = false;
        let mut has_slice: bool = false;
        let mut i: usize = 0;
        assert(all.take(0) =~= seq![]);
        while i < nals.len()
            invariant
                i <= nals.len(),
                all == annexb::annexb_nals(annexb@),
                annexb::contents(nals@) == all,
                data@ == avcc_sample(all.take(i as int)),
                sync == has_type(all.take(i as int), NAL_IDR),
                has_slice == (sync || has_type(all.take(i as int), NAL_SLICE)),
                self@.sps == last_of_type(all.take(i as int), NAL_SPS, old(self)@.sps),
                self@.pps == last_of_type(all.take(i as int), NAL_PPS, old(self)@.pps),
                self@.seen_idr == (old(self)@.seen_idr || sync),
            decreases nals.len() - i,
        {
            let nal: &[u8] = nals[i];
            let ghost prefix = all.take(i as int);
            let ghost longer = all.take(i + 1);
            proof {
                assert(nal@ == annexb::contents(nals@)[i as int]);
                annexb::split_payloads_hold_no_framing(annexb@, i as int);
                assert(longer.drop_last() =~= prefix);
                assert(longer.last() == nal@);
                has_type_step(longer, NAL_IDR);
                has_type_step(longer, NAL_SLICE);
            }
            match nal[0] % 32 {
                7 => {
                    self.sps = Some(vstd::slice::slice_to_vec(nal));
                },
                8 => {
                    self.pps = Some(vstd::slice::slice_to_vec(nal));
                },
                5 => {
                    self.seen_idr = true;
                    sync = true;
                    has_slice = true;
                },
                1 => {
                    has_slice = true;
                },
                _ => {},
            }
            bytes::push_be32(&mut data, nal.len() as u32);
            bytes::push_all(&mut data, nal);
            assert(data@ =~= avcc_sample(longer));
            i += 1;
        }
        assert(all.take(i as int) =~= all);
        if !has_slice || !self.seen_idr {
            return None;
        }
        Some(BuiltSample { data, sync })
    }

    /// Build the `avc1` sample entry + `avcC` record from the captured parameter sets, with the
    /// display dimensions parsed from the SPS. An SPS whose size leaves 32 bits has none to give;
    /// [`H264SampleBuilder::size_in_range`] tells.
    pub fn track_config(&self) -> (r: Option<TrackConfig>)
        requires
            self@.sps is Some && self@.pps is Some ==> sps::sps_size(self@.sps.unwrap())
                != sps::SpsSize::OutOfRange,
        ensures
            r is Some <==> self@.sps is Some && self@.pps is Some && sps::sps_size(
                self@.sps.unwrap(),
            ) is Pixels,
            r matches Some(cfg) ==> sps::sps_size(self@.sps.unwrap()) == sps::SpsSize::Pixels(
                cfg.width,
                cfg.height,
            ) && cfg.sample_entry@ == avc1_entry(
                self@.sps.unwrap(),
                self@.pps.unwrap(),
                cfg.width,
                cfg.height,
            ),
    {
        match (&self.sps, &self.pps) {
            (Some(sps), Some(pps)) => {
                match parse_sps_dimensions(sps.as_slice()) {
                    None => None,
                    Some((width, height)) => {
                        let sample_entry = mk_avc1(sps.as_slice(), pps.as_slice(), width, height);
                        Some(TrackConfig { sample_entry, width, height })
                    },
                }
            },
            _ => None,
        }
    }
}

proof fn has_type_step(nals: Seq<Seq<u8>>, t: u8)
    requires
        nals.len() > 0,
    ensures
        has_type(nals, t) == (has_type(nals.drop_last(), t) || nal_type(nals.last()) == t),
{
    let shorter = nals.drop_last();
    if has_type(shorter, t) {
        let i = choose|i: int| 0 <= i < shorter.len() && #[trigger] nal_type(shorter[i]) == t;
        assert(nal_type(nals[i]) == t);
    }
    if nal_type(nals.last()) == t {
        assert(nal_type(nals[nals.len() - 1]) == t);
    }
    if has_type(nals, t) {
        let i = choose|i: int| 0 <= i < nals.len() && #[trigger] nal_type(nals[i]) == t;
        if i < nals.len() - 1 {
            assert(nal_type(shorter[i]) == t);
        }
    }
}

fn mk_avc1(sps: &[u8], pps: &[u8], width: u32, height: u32) -> (b: Vec<u8>)
    requires
        sps.len() >= 4,
    ensures
        b@ == avc1_entry(sps@, pps@, width, height),
{
    let mut avcc_p: Vec<u8> = Vec::new();
    avcc_p.push(1);
    avcc_p.push(sps[1]);
    avcc_p.push(sps[2]);
    avcc_p.push(sps[3]);
    avcc_p.push(0xff);
    avcc_p.push(0xe1);
    bytes::push_be16(&mut avcc_p, sps.len() as u16);
    bytes::push_all(&mut avcc_p, sps);
    avcc_p.push(1);
    bytes::push_be16(&mut avcc_p, pps.len() as u16);
    bytes::push_all(&mut avcc_p, pps);
    assert(avcc_p@ =~= seq![1u8, sps[1], sps[2], sps[3], 0xff, 0xe1] + bytes::be16(
        sps.len() as u16,
    ) + sps@ + seq![1u8] + bytes::be16(pps.len() as u16) + pps@);
    let avcc = boxes::mk_box(boxes::AVCC, avcc_p.as_slice());
    let mut entry_p: Vec<u8> = Vec::new();
    bytes::push_zeros(&mut entry_p, 6);
    bytes::push_be16(&mut entry_p, 1);
    bytes::push_zeros(&mut entry_p, 16);
    bytes::push_be16(&mut entry_p, width as u16);
    bytes::push_be16(&mut entry_p, height as u16);
    bytes::push_be32(&mut entry_p, 0x0048_0000);
    bytes::push_be32(&mut entry_p, 0x0048_0000);
    bytes::push_zeros(&mut entry_p, 4);
    bytes::push_be16(&mut entry_p, 1);
    bytes::push_zeros(&mut entry_p, 32);
    bytes::push_be16(&mut entry_p, 0x0018);
    bytes::push_be16(&mut entry_p, 0xffff);
    bytes::push_all(&mut entry_p, avcc.as_slice());
    assert(entry_p@ =~= bytes::zeros(6) + bytes::be16(1) + bytes::zeros(16) + bytes::be16(
        width as u16,
    ) + bytes::be16(height as u16) + bytes::be32(0x0048_0000) + bytes::be32(0x0048_0000)
        + bytes::zeros(4) + bytes::be16(1) + bytes::zeros(32) + bytes::be16(0x0018) + bytes::be16(
        0xffff,
    ) + avcc_box(sps@, pps@));
    boxes::mk_box(boxes::AVC1, entry_p.as_slice())
}

} // verus!
