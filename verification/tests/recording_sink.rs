use pixelflux::encoders::{Codec, EncodedStripe, FrameTiming, WIRE_VIDEO};
use pixelflux::recording_sink::{
    payload_offset, stream_prefix, FrameWrite, RecordingSink, Tap, WriteStep, Written,
};

/// The Annex-B codecs need nothing ahead of a frame; VP8 and VP9 get an IVF file header on a
/// client's first frame and a frame header on every one, carrying the size and the frame index; an
/// AV1 unit is opened with a temporal delimiter only when it lacks one.
#[test]
fn prefixes_follow_the_codec() {
    assert!(stream_prefix(Codec::H264, &[0, 0, 1, 0x65], 0, (1280, 720), 60).is_empty());
    assert!(stream_prefix(Codec::H265, &[0, 0, 1, 0x26, 1], 3, (1280, 720), 60).is_empty());

    let first = stream_prefix(Codec::Vp9, &[0x82, 0x49, 0x83], 0, (1280, 720), 60);
    assert_eq!(first.len(), 44);
    assert_eq!(&first[..4], b"DKIF");
    assert_eq!(&first[8..12], b"VP90");
    assert_eq!(u16::from_le_bytes([first[12], first[13]]), 1280);
    assert_eq!(u16::from_le_bytes([first[14], first[15]]), 720);
    assert_eq!(u32::from_le_bytes([first[16], first[17], first[18], first[19]]), 60);
    assert_eq!(u32::from_le_bytes([first[32], first[33], first[34], first[35]]), 3);
    assert_eq!(u64::from_le_bytes(first[36..44].try_into().unwrap()), 0);
    let later = stream_prefix(Codec::Vp8, &[0u8; 100], 7, (1280, 720), 60);
    assert_eq!(later.len(), 12);
    assert_eq!(u32::from_le_bytes(later[..4].try_into().unwrap()), 100);
    assert_eq!(u64::from_le_bytes(later[4..].try_into().unwrap()), 7);
    assert_eq!(&stream_prefix(Codec::Vp8, &[], 0, (64, 64), 30)[8..12], b"VP80");

    assert!(stream_prefix(Codec::Av1, &[0x12, 0x00, 0x32, 0x01, 0x10], 0, (64, 64), 30).is_empty());
    assert_eq!(stream_prefix(Codec::Av1, &[0x32, 0x01, 0x10], 0, (64, 64), 30), vec![0x12, 0x00]);
    assert_eq!(stream_prefix(Codec::Av1, &[], 0, (64, 64), 30), vec![0x12, 0x00]);
}

fn stripe(codec: Codec, len: usize, y: i32, h: i32) -> EncodedStripe {
    let mut data = vec![0u8; len];
    if len > 0 {
        data[0] = WIRE_VIDEO;
    }
    EncodedStripe {
        data,
        data_type: 2,
        codec,
        stripe_y_start: y,
        stripe_height: h,
        frame_id: 0,
        timing: FrameTiming { capture_ns: 0, encode_start_ns: 0, encode_end_ns: 0 },
    }
}

#[test]
fn sinks_need_a_path() {
    assert!(RecordingSink::try_bind("", 60_000).is_none());
    let sink = RecordingSink::try_bind("/tmp/x.sock", 60_000).unwrap();
    assert_eq!(sink.fps, 60);
    assert!(sink.clients.is_empty());
}

/// A client that connects asks for a keyframe once.
#[test]
fn a_connection_asks_for_one_keyframe() {
    let mut sink = RecordingSink::try_bind("/tmp/x.sock", 60_000).unwrap();
    assert!(!sink.should_force_idr());
    sink.connect(7);
    assert!(sink.should_force_idr());
    assert!(!sink.should_force_idr());
}

/// A frame goes to every client with the header its place in that client's stream asks for.
#[test]
fn each_client_gets_its_own_headers() {
    let mut sink = RecordingSink::try_bind("/tmp/x.sock", 30_000).unwrap();
    let frame = [stripe(Codec::Vp9, 30, 0, 720)];
    assert!(matches!(sink.write_frame(&frame, 1280, 720), Tap::Idle), "nobody listens");
    sink.connect(1);
    match sink.write_frame(&frame, 1280, 720) {
        Tap::Frames { stripe, offset, prefixes } => {
            assert_eq!((stripe, offset), (0, 10));
            assert_eq!(prefixes.len(), 1);
            assert_eq!(prefixes[0].len(), 44);
            assert_eq!(u32::from_le_bytes(prefixes[0][32..36].try_into().unwrap()), 20);
        }
        _ => panic!("a frame"),
    }
    sink.connect(2);
    match sink.write_frame(&frame, 1280, 720) {
        Tap::Frames { prefixes, .. } => {
            assert_eq!((prefixes[0].len(), prefixes[1].len()), (12, 44));
        }
        _ => panic!("a frame"),
    }
}

#[test]
fn striped_frames_are_told_once() {
    let mut sink = RecordingSink::try_bind("/tmp/x.sock", 30_000).unwrap();
    sink.connect(1);
    let frame = [stripe(Codec::H264, 30, 0, 360), stripe(Codec::H264, 30, 360, 360)];
    assert!(matches!(sink.write_frame(&frame, 1280, 720), Tap::Unrecordable { first: true }));
    assert!(matches!(sink.write_frame(&frame, 1280, 720), Tap::Unrecordable { first: false }));
}

/// Clients that did not take their frame are dropped, the others stay.
#[test]
fn stalled_clients_are_dropped() {
    let mut sink = RecordingSink::try_bind("/tmp/x.sock", 30_000).unwrap();
    for id in [10, 11, 12] {
        sink.connect(id);
    }
    sink.drop_clients(&[true, false, true]);
    let left: Vec<u64> = sink.clients.iter().map(|c| c.id).collect();
    assert_eq!(left, vec![10, 12]);
}

#[test]
fn payloads_start_past_the_wire_header() {
    assert_eq!(payload_offset(&[4, 0, 0, 0, 0, 0, 0, 0, 0, 0, 1]), 10);
    assert_eq!(payload_offset(&[4, 0, 0]), 0);
    assert_eq!(payload_offset(&[0, 0, 0, 1, 0x65, 0, 0, 0, 0, 0, 0]), 0);
}

#[test]
fn writes_go_on_where_they_stopped() {
    let (mut w, step) = FrameWrite::start(10, false);
    assert!(matches!(step, WriteStep::Write(0)));
    assert!(matches!(w.after(Written::Bytes(4), false), WriteStep::Write(4)));
    assert!(matches!(w.after(Written::WouldBlock, false), WriteStep::Wait));
    assert!(matches!(w.resume(false), WriteStep::Write(4)));
    assert!(matches!(w.resume(true), WriteStep::Stopped));
    assert!(matches!(w.after(Written::Retry, false), WriteStep::Write(4)));
    assert!(matches!(w.after(Written::Bytes(6), false), WriteStep::Done));
    let (mut z, _) = FrameWrite::start(10, false);
    assert!(matches!(z.after(Written::Bytes(0), false), WriteStep::WriteZero));
    let (mut f, _) = FrameWrite::start(10, false);
    assert!(matches!(f.after(Written::Failed, false), WriteStep::Failed));
    assert!(matches!(FrameWrite::start(0, false).1, WriteStep::Done));
}
