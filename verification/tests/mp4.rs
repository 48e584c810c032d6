use pixelflux::recorder::annexb::split_annexb;
use pixelflux::recorder::mp4::{
    opus_packet_samples, opus_sample_entry, AudioTrackConfig, FragmentWriter, H264SampleBuilder, MAX_PTS_US,
    Mp4Stats, TrackConfig, AUDIO_FLUSH_SAMPLES, DEFAULT_LAST_DURATION,
};
use pixelflux::recorder::ogg::OpusHead;
use pixelflux::recorder::sps::{parse_sps_dimensions, read_sps, unescape_rbsp, BitReader, SpsSize};

// x264 SPS at 1284x722 (High 4:2:0: cropping in both axes on odd-macroblock dims).
const SPS_HIGH_1284X722: &str = "67640020acd9405105de788c0440000003004000000f03c60c6580";
// x264 SPS at 640x360 (Constrained Baseline).
const SPS_BASE_640X360: &str = "6742c01ed900a02ff970110000030001000003003c0f162e48";
// x264 SPS at 1920x1080 (High 4:4:4 Predictive: chroma_format_idc == 3 path).
const SPS_444_1920X1080: &str = "67f40028919b280f0044fc4e0220000003002000000781e30632c0";

fn hex(s: &str) -> Vec<u8> {
    (0..s.len())
        .step_by(2)
        .map(|i| u8::from_str_radix(&s[i..i + 2], 16).unwrap())
        .collect()
}

/// Everything a writer produced, from its start to its end.
fn finish(mut w: FragmentWriter) -> (Mp4Stats, Vec<u8>) {
    let mut out = w.take_output();
    let (stats, rest) = w.finish();
    out.extend_from_slice(&rest);
    (stats, out)
}

/// Both start-code lengths delimit NALs; payloads come back exactly, with no framing.
#[test]
fn split_annexb_handles_mixed_start_codes() {
    let mut data = Vec::new();
    data.extend_from_slice(&[0, 0, 0, 1, 0x67, 0xAA, 0xBB]);
    data.extend_from_slice(&[0, 0, 1, 0x68, 0xCC]);
    data.extend_from_slice(&[0, 0, 0, 1, 0x65, 0x00, 0x00, 0x03, 0x01, 0xDD]);
    let nals = split_annexb(&data);
    assert_eq!(nals.len(), 3);
    assert_eq!(nals[0], &[0x67, 0xAA, 0xBB]);
    assert_eq!(nals[1], &[0x68, 0xCC]);
    assert_eq!(nals[2], &[0x65, 0x00, 0x00, 0x03, 0x01, 0xDD]);
}

/// Nothing to split yields no NALs, and a stream cut right after a start code yields no empty one.
#[test]
fn split_annexb_emits_no_empty_nals() {
    assert!(split_annexb(&[]).is_empty());
    assert!(split_annexb(&[0x67, 0xAA, 0xBB]).is_empty());
    assert!(split_annexb(&[0, 0, 0, 1]).is_empty());
    assert_eq!(split_annexb(&[0, 0, 1, 0x68, 0, 0, 0, 1]), vec![&[0x68u8][..]]);
}

/// Dimensions of real parameter sets, with frame cropping and 4:4:4 chroma.
#[test]
fn sps_dimensions_across_profiles() {
    assert_eq!(parse_sps_dimensions(&hex(SPS_HIGH_1284X722)), Some((1284, 722)));
    assert_eq!(parse_sps_dimensions(&hex(SPS_BASE_640X360)), Some((640, 360)));
    assert_eq!(parse_sps_dimensions(&hex(SPS_444_1920X1080)), Some((1920, 1080)));
}

/// Every NAL is length-prefixed, IDR marks sync, parameter sets are harvested, and a
/// parameter-set-only access unit yields no sample.
#[test]
fn annexb_to_avcc_sample() {
    let sps = hex(SPS_BASE_640X360);
    let mut au = Vec::new();
    au.extend_from_slice(&[0, 0, 0, 1]);
    au.extend_from_slice(&sps);
    au.extend_from_slice(&[0, 0, 0, 1, 0x68, 0xCE, 0x38, 0x80]);
    au.extend_from_slice(&[0, 0, 0, 1, 0x65, 1, 2, 3, 4]);

    let mut b = H264SampleBuilder::new();
    assert!(b.build_sample(&[0u8, 0, 0, 1, 0x67, 0x42, 0xc0, 0x1e, 0xd9]).is_none());
    let s = b.build_sample(&au).expect("IDR AU builds a sample");
    assert!(s.sync);
    assert!(b.have_parameter_sets());
    // Sample = 3 length-prefixed NALs, sizes preserved.
    let mut off = 0usize;
    let mut sizes = Vec::new();
    while off < s.data.len() {
        let n = u32::from_be_bytes(s.data[off..off + 4].try_into().unwrap()) as usize;
        sizes.push(n);
        off += 4 + n;
    }
    assert_eq!(off, s.data.len());
    assert_eq!(sizes, vec![sps.len(), 4, 5]);

    let p = b.build_sample(&[0u8, 0, 0, 1, 0x41, 9, 9]).unwrap();
    assert!(!p.sync);
}

fn top_level(buf: &[u8]) -> Vec<(String, Vec<u8>)> {
    let mut out = Vec::new();
    let mut at = 0;
    while at + 8 <= buf.len() {
        let size = u32::from_be_bytes(buf[at..at + 4].try_into().unwrap()) as usize;
        out.push((String::from_utf8_lossy(&buf[at + 4..at + 8]).into_owned(), buf[at + 8..at + size].to_vec()));
        at += size;
    }
    assert_eq!(at, buf.len(), "boxes tile the buffer");
    out
}

fn count(haystack: &[u8], needle: &[u8]) -> usize {
    haystack.windows(needle.len()).filter(|w| *w == needle).count()
}

fn idr_au() -> Vec<u8> {
    let mut au = vec![0, 0, 0, 1];
    au.extend_from_slice(&hex(SPS_BASE_640X360));
    au.extend_from_slice(&[0, 0, 0, 1, 0x68, 0xCE, 0x38, 0x80, 0, 0, 0, 1, 0x65, 1, 2, 3, 4]);
    au
}

/// Opus packet lengths from the first byte: 20 ms CELT fullband, 2.5 ms, a 60 ms SILK, and packets
/// counting their frames.
#[test]
fn opus_packet_durations() {
    assert_eq!(opus_packet_samples(&[0xfc]), 960);
    assert_eq!(opus_packet_samples(&[0xe0]), 120);
    assert_eq!(opus_packet_samples(&[0x18]), 2880);
    assert_eq!(opus_packet_samples(&[0xfd]), 1920);
    assert_eq!(opus_packet_samples(&[0xff, 0x03]), 2880);
    assert_eq!(opus_packet_samples(&[]), 0);
}

/// With an audio track declared the init carries two `trak`s and two `trex`es; packets go out
/// contiguously in audio fragments at the flush size, a gap closes a fragment early, and the
/// fragments' decode times are the packets' own.
#[test]
fn audio_track_fragments() {
    let head = OpusHead {
        channels: 2, pre_skip: 312, input_sample_rate: 48000, output_gain: 0, mapping_family: 0, mapping: vec![],
    };
    let entry = opus_sample_entry(&head);
    assert_eq!(&entry[4..8], b"Opus");
    assert_eq!(count(&entry, b"dOps"), 1);
    let dops = entry.windows(4).position(|w| w == b"dOps").unwrap() + 4;
    assert_eq!(&entry[dops..dops + 4], &[0, 2, 0x01, 0x38]);

    let mut b = H264SampleBuilder::new();
    let sample = b.build_sample(&idr_au()).unwrap();
    let mut w = FragmentWriter::new().with_audio(AudioTrackConfig { sample_entry: entry });
    w.write_init(&b.track_config().unwrap());
    for i in 0..AUDIO_FLUSH_SAMPLES as u64 + 2 {
        w.push_audio(vec![0xfc, i as u8], 1000 + i * 960);
    }
    // A gap of a second: the two pending packets close, the next opens a fragment.
    w.push_audio(vec![0xfc, 0xee], 1000 + 28 * 960 + 48_000);
    w.push_sample(sample.data.clone(), true, 0);
    w.push_sample(sample.data, true, 33_000);
    let (st, out) = finish(w);
    assert_eq!(st.audio_samples, AUDIO_FLUSH_SAMPLES as u64 + 3);
    assert_eq!(st.samples, 2);
    assert_eq!(st.duration_us, (1000 + 28 * 960 + 48_000 + 960) * 1_000_000 / 48_000);
    let boxes = top_level(&out);
    let kinds: Vec<&str> = boxes.iter().map(|(k, _)| k.as_str()).collect();
    assert_eq!(kinds[..2], ["ftyp", "moov"]);
    assert_eq!(count(&boxes[1].1, b"trak"), 2);
    assert_eq!(count(&boxes[1].1, b"trex"), 2);
    assert_eq!(count(&boxes[1].1, b"soun"), 1);
    assert_eq!(kinds.iter().filter(|k| **k == "moof").count(), 5, "{kinds:?}");
    let tfdts: Vec<u64> = boxes.iter().filter(|(k, _)| k == "moof").map(|(_, m)| {
        let at = m.windows(4).position(|w| w == b"tfdt").unwrap() + 8;
        u64::from_be_bytes(m[at..at + 8].try_into().unwrap())
    }).collect();
    // Audio: the full batch, then the two before the gap when the one after it arrives; the first
    // video sample goes out when the second arrives; the packet after the gap and the last video
    // sample at finish.
    assert_eq!(tfdts, vec![1000, 1000 + AUDIO_FLUSH_SAMPLES as u64 * 960, 0, 1000 + 28 * 960 + 48_000, 2970]);
    let first_audio = &boxes[2].1;
    let trun = first_audio.windows(4).position(|w| w == b"trun").unwrap() + 8;
    assert_eq!(u32::from_be_bytes(first_audio[trun..trun + 4].try_into().unwrap()), AUDIO_FLUSH_SAMPLES as u32);
    assert_eq!(u32::from_be_bytes(first_audio[trun + 8..trun + 12].try_into().unwrap()), 960);
}

/// Init once, then one moof+mdat pair per sample, with sizes that exactly tile the buffer.
#[test]
fn fragment_stream_box_layout() {
    let mut b = H264SampleBuilder::new();
    let mut au = Vec::new();
    au.extend_from_slice(&[0, 0, 0, 1]);
    au.extend_from_slice(&hex(SPS_BASE_640X360));
    au.extend_from_slice(&[0, 0, 0, 1, 0x68, 0xCE, 0x38, 0x80]);
    au.extend_from_slice(&[0, 0, 0, 1, 0x65, 1, 2, 3, 4]);
    let s1 = b.build_sample(&au).unwrap();
    let s2 = b.build_sample(&[0u8, 0, 0, 1, 0x41, 5, 6, 7]).unwrap();

    let mut w = FragmentWriter::new();
    w.write_init(&b.track_config().unwrap());
    w.push_sample(s1.data, s1.sync, 0);
    w.push_sample(s2.data, s2.sync, 33_000);
    let (stats, buf) = finish(w);
    assert_eq!(stats.samples, 2);
    assert_eq!(stats.sync_samples, 1);
    assert_eq!(stats.bytes as usize, buf.len());

    let mut kinds = Vec::new();
    let mut off = 0usize;
    while off < buf.len() {
        let size = u32::from_be_bytes(buf[off..off + 4].try_into().unwrap()) as usize;
        kinds.push(buf[off + 4..off + 8].to_vec());
        assert!(size >= 8 && off + size <= buf.len());
        off += size;
    }
    assert_eq!(off, buf.len());
    let names: Vec<&str> = kinds.iter().map(|k| std::str::from_utf8(k).unwrap()).collect();
    assert_eq!(names, vec!["ftyp", "moov", "moof", "mdat", "moof", "mdat"]);
}

/// Every trun sample_duration in stream order (the writer emits one sample per trun).
fn trun_durations(buf: &[u8]) -> Vec<u32> {
    let mut out = Vec::new();
    let mut off = 0usize;
    while off + 24 <= buf.len() {
        if &buf[off + 4..off + 8] == b"trun" {
            // [size][fourcc][ver+flags][sample_count][data_offset][duration]
            out.push(u32::from_be_bytes(buf[off + 20..off + 24].try_into().unwrap()));
        }
        off += 1;
    }
    out
}

fn small_config() -> TrackConfig {
    let mut b = H264SampleBuilder::new();
    let mut au = vec![0, 0, 0, 1];
    au.extend_from_slice(&hex(SPS_BASE_640X360));
    au.extend_from_slice(&[0, 0, 0, 1, 0x68, 0xCE, 0x38, 0x80]);
    au.extend_from_slice(&[0, 0, 0, 1, 0x65, 1]);
    b.build_sample(&au);
    b.track_config().unwrap()
}

/// Each flushed sample's duration is the time to its successor, and the final one closes with the
/// MEDIAN observed duration.
#[test]
fn sample_durations_are_pts_deltas_with_median_tail() {
    let mut w = FragmentWriter::new();
    w.write_init(&small_config());
    // 33 ms, 33 ms, then a 300 ms static gap before the final frame.
    w.push_sample(vec![0, 0, 0, 1, 0x65], true, 0);
    w.push_sample(vec![0, 0, 0, 1, 0x41], false, 33_000);
    w.push_sample(vec![0, 0, 0, 1, 0x41], false, 66_000);
    w.push_sample(vec![0, 0, 0, 1, 0x41], false, 366_000);
    let (stats, buf) = finish(w);
    assert_eq!(stats.samples, 4);
    // 90 kHz ticks: 33 ms = 2970. The tail closes at the median (2970), not 27000.
    assert_eq!(trun_durations(&buf), vec![2970, 2970, 27_000, 2970]);
}

/// The tail's duration does not depend on the order in which the durations came.
#[test]
fn median_is_taken_of_the_sorted_durations() {
    let mut w = FragmentWriter::new();
    w.write_init(&small_config());
    // 300 ms, 100 ms, 200 ms: the median is 200 ms = 18000 ticks, the last and the middle one of
    // the arrival order are others.
    for pts in [0u64, 300_000, 400_000, 600_000] {
        w.push_sample(vec![0, 0, 0, 1, 0x41], false, pts);
    }
    let (_, buf) = finish(w);
    assert_eq!(trun_durations(&buf), vec![27_000, 9_000, 18_000, 18_000]);
}

/// A single-frame recording still closes with a sane nonzero duration.
#[test]
fn single_sample_uses_default_duration() {
    let mut w = FragmentWriter::new();
    w.write_init(&small_config());
    w.push_sample(vec![0, 0, 0, 1, 0x65], true, 0);
    let (stats, buf) = finish(w);
    assert_eq!(stats.samples, 1);
    assert_eq!(trun_durations(&buf), vec![DEFAULT_LAST_DURATION]);
}

/// Non-monotonic wall-clock input is clamped to strictly increasing decode times.
#[test]
fn pts_clamped_strictly_monotonic() {
    let mut w = FragmentWriter::new();
    w.write_init(&small_config());
    w.push_sample(vec![0, 0, 0, 1, 0x65], true, 1000);
    // The second sample repeats the clock and the third winds it backwards.
    w.push_sample(vec![0, 0, 0, 1, 0x41], false, 1000);
    w.push_sample(vec![0, 0, 0, 1, 0x41], false, 500);
    let (stats, buf) = finish(w);
    assert_eq!(stats.samples, 3);

    // Extract each tfdt baseMediaDecodeTime and check strict monotonicity.
    let mut times = Vec::new();
    let mut off = 0usize;
    while off + 8 <= buf.len() {
        if &buf[off + 4..off + 8] == b"tfdt" {
            let t = u64::from_be_bytes(buf[off + 12..off + 20].try_into().unwrap());
            times.push(t);
        }
        off += 1;
    }
    assert_eq!(times.len(), 3);
    assert!(times.windows(2).all(|w| w[1] > w[0]), "tfdt times: {times:?}");
}

#[test]
fn parameter_sets_that_give_no_size_are_told_apart() {
    assert!(read_sps(&hex(SPS_BASE_640X360)) == SpsSize::Pixels(640, 360));
    assert!(read_sps(&[0x67, 0x42]) == SpsSize::Malformed);
    assert!(read_sps(&[0x68, 0x42, 0xc0, 0x1e, 0xd9]) == SpsSize::Malformed);
    assert_eq!(parse_sps_dimensions(&[]), None);
}

#[test]
fn emulation_prevention_bytes_are_dropped() {
    assert_eq!(unescape_rbsp(&[1, 0, 0, 3, 1, 0, 0, 3]), vec![1, 0, 0, 1, 0, 0]);
    assert_eq!(unescape_rbsp(&[0, 3, 0, 3]), vec![0, 3, 0, 3]);
}

#[test]
fn exp_golomb_codes_read_both_signs() {
    // 1 | 010 | 011 | 00100 | padding: 0, 1, 2, 3 unsigned.
    let data = [0b1010_0110, 0b0100_0000];
    let mut r = BitReader::new(&data);
    assert_eq!((r.ue(), r.ue(), r.ue(), r.ue()), (Some(0), Some(1), Some(2), Some(3)));
    let mut s = BitReader::new(&data);
    assert_eq!((s.se(), s.se(), s.se(), s.se()), (Some(0), Some(1), Some(-1), Some(2)));
    let mut b = BitReader::new(&data);
    assert_eq!((b.bits(4), b.bit(), b.bits(3)), (Some(0b1010), Some(0), Some(0b110)));
    assert_eq!(b.bits(9), None);
}

#[test]
fn counters_follow_the_bytes_handed_over() {
    let mut w = FragmentWriter::new();
    assert!(!w.init_written());
    w.write_init(&small_config());
    assert!(w.init_written());
    let init = w.take_output();
    assert_eq!(w.stats().bytes as usize, init.len());
    assert_eq!(w.committed() as usize, init.len());
    w.push_sample(vec![0, 0, 0, 1, 0x65], true, 0);
    assert!(w.take_output().is_empty(), "the first sample is held back");
    assert_eq!(w.committed() as usize, init.len() + 108 + 5);
    assert_eq!(w.fragments(), 1);
    assert_eq!(w.stats().samples, 0);
}

/// An audio packet of a file without an audio track goes nowhere.
#[test]
fn audio_without_a_track_is_dropped() {
    let mut w = FragmentWriter::new();
    w.write_init(&small_config());
    let _ = w.take_output();
    w.push_audio(vec![0xfc, 1], 0);
    let (stats, rest) = w.finish();
    assert_eq!(stats.audio_samples, 0);
    assert!(rest.is_empty());
}

/// Output is gated on the first IDR; the parameter sets ahead of it are harvested all the same.
#[test]
fn slices_ahead_of_the_first_idr_give_no_sample() {
    let mut b = H264SampleBuilder::new();
    let slice = [0u8, 0, 0, 1, 0x41, 9, 9];
    assert!(b.build_sample(&slice).is_none());
    let mut with_sets = vec![0u8, 0, 0, 1, 0x67, 0x42, 0xc0, 0x1e, 0xd9, 0, 0, 0, 1, 0x68, 0xce];
    with_sets.extend_from_slice(&slice);
    assert!(b.build_sample(&with_sets).is_none());
    assert!(b.have_parameter_sets());
    assert!(b.build_sample(&[0u8, 0, 0, 1, 0x65, 1]).unwrap().sync);
    let after = b.build_sample(&slice).unwrap();
    assert_eq!((after.data, after.sync), (vec![0, 0, 0, 3, 0x41, 9, 9], false));
}

/// Over a whole run every packet and every sample comes out once and in order, and the counters are
/// the run's totals, wherever the output was handed over.
#[test]
fn runs_come_out_whole() {
    let head = OpusHead {
        channels: 2, pre_skip: 0, input_sample_rate: 48000, output_gain: 0, mapping_family: 0, mapping: vec![],
    };
    let mut b = H264SampleBuilder::new();
    b.build_sample(&idr_au());
    let mut w = FragmentWriter::new().with_audio(AudioTrackConfig { sample_entry: opus_sample_entry(&head) });
    w.write_init(&b.track_config().unwrap());
    let mut out = Vec::new();
    let mut packets = Vec::new();
    let mut samples = Vec::new();
    for i in 0..60u8 {
        // Every seventh packet leaves a gap.
        let dts = i as u64 * 960 + i as u64 / 7 * 48;
        w.push_audio(vec![0xfc, i], dts);
        packets.extend_from_slice(&[0xfc, i]);
        if i % 3 == 0 {
            w.push_sample(vec![0x65, i, i], i % 6 == 0, i as u64 * 20_000);
            samples.push(vec![0x65, i, i]);
        }
        if i % 10 == 9 {
            out.extend(w.take_output());
        }
    }
    let (stats, rest) = w.finish();
    out.extend(rest);
    assert_eq!((stats.samples, stats.sync_samples, stats.audio_samples), (20, 10, 60));
    assert_eq!(stats.bytes as usize, out.len());
    let video_end = (57 * 1800 + 5400) * 1000 / 90;
    let audio_end = (59 * 960 + 59 / 7 * 48 + 960) * 1_000_000 / 48_000;
    assert_eq!(stats.duration_us, std::cmp::max(video_end, audio_end));
    let boxes = top_level(&out);
    let (mut heard, mut shown) = (Vec::new(), Vec::new());
    for pair in boxes[2..].chunks(2) {
        let tfhd = pair[0].1.windows(4).position(|w| w == b"tfhd").unwrap() + 8;
        if pair[0].1[tfhd..tfhd + 4] == [0, 0, 0, 2] {
            heard.extend_from_slice(&pair[1].1);
        } else {
            shown.push(pair[1].1.clone());
        }
    }
    assert_eq!(heard, packets);
    assert_eq!(shown, samples);
}

/// The clock ends where its microseconds leave 64 bits: the last timestamp is taken once, and no
/// sample behind it can be timed or closed.
#[test]
fn the_clock_ends_with_its_microseconds() {
    let mut w = FragmentWriter::new();
    assert!(w.is_timeable(MAX_PTS_US) && !w.is_timeable(MAX_PTS_US + 1) && w.is_closable());
    w.push_sample(vec![0, 0, 0, 1, 0x65], true, MAX_PTS_US - 1_000_000);
    assert!(w.is_closable() && w.is_timeable(0));
    w.push_sample(vec![0, 0, 0, 1, 0x41], false, MAX_PTS_US);
    assert!(!w.is_timeable(MAX_PTS_US) && !w.is_timeable(0) && !w.is_closable());
}
