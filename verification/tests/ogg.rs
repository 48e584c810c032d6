use pixelflux::recorder::ogg::{parse_opus_head, ByteSource, PageError, PageReader};

fn page(granule: u64, packets: &[&[u8]], continued_tail: bool) -> Vec<u8> {
    let mut lacing = Vec::new();
    let mut body = Vec::new();
    for (i, p) in packets.iter().enumerate() {
        lacing.extend(std::iter::repeat(255u8).take(p.len() / 255));
        if !(continued_tail && i == packets.len() - 1) {
            lacing.push((p.len() % 255) as u8);
        }
        body.extend_from_slice(p);
    }
    let mut out = b"OggS\0\0".to_vec();
    out.extend_from_slice(&granule.to_le_bytes());
    out.extend_from_slice(&[0u8; 12]);
    out.push(lacing.len() as u8);
    out.extend_from_slice(&lacing);
    out.extend_from_slice(&body);
    out
}

fn opus_head() -> Vec<u8> {
    let mut head = b"OpusHead".to_vec();
    head.extend_from_slice(&[1, 2, 0x38, 0x01, 0x80, 0xbb, 0, 0, 0, 0, 0]);
    head
}

/// Packets come out in order, a page's granule on its last packet only, a packet cut across two
/// pages whole, and a head parses into its fields.
#[test]
fn packets_and_granules() {
    let head = opus_head();
    let long = vec![7u8; 510];
    let mut stream = page(0, &[&head], false);
    stream.extend(page(1920, &[b"aa", b"bbb"], false));
    stream.extend(page(2880, &[&long], true));
    stream.extend(page(3840, &[&[8u8; 0][..]], false));
    let mut reader = PageReader::new(ByteSource::whole(stream));
    let (first, g0) = reader.next_packet().unwrap().unwrap();
    let parsed = parse_opus_head(&first).expect("head");
    assert_eq!((parsed.channels, parsed.pre_skip, parsed.input_sample_rate, parsed.mapping_family), (2, 312, 48000, 0));
    assert_eq!(g0, Some(0));
    assert_eq!(reader.next_packet().unwrap().unwrap(), (b"aa".to_vec(), None));
    assert_eq!(reader.next_packet().unwrap().unwrap(), (b"bbb".to_vec(), Some(1920)));
    assert_eq!(reader.next_packet().unwrap().unwrap(), (long, Some(3840)));
    assert!(reader.next_packet().unwrap().is_none());
}

#[test]
fn streams_that_are_no_ogg_are_refused() {
    let mut bytes = page(0, &[b"aa"], false);
    bytes[0] = b'X';
    let mut reader = PageReader::new(ByteSource::whole(bytes));
    assert!(matches!(reader.next_packet(), Err(PageError::NotOgg)));
}

/// A reader that ran out of bytes goes on where it stopped when more arrive.
#[test]
fn a_starved_reader_goes_on_when_fed() {
    let bytes = page(960, &[b"abc"], false);
    let mut reader = PageReader::new(ByteSource::new());
    assert!(matches!(reader.next_packet(), Err(PageError::Starved)));
    reader.inner_mut().feed(&bytes[..20]);
    assert!(matches!(reader.next_packet(), Err(PageError::Starved)));
    reader.inner_mut().feed(&bytes[20..]);
    assert_eq!(reader.next_packet().unwrap().unwrap(), (b"abc".to_vec(), Some(960)));
    reader.inner_mut().end();
    assert!(reader.next_packet().unwrap().is_none());
}

#[test]
fn heads_that_are_cut_short_or_of_another_kind_are_none() {
    let head = opus_head();
    assert!(parse_opus_head(&head[..18]).is_none());
    let mut other = head.clone();
    other[0] = b'o';
    assert!(parse_opus_head(&other).is_none());
    assert_eq!(parse_opus_head(&head).unwrap().output_gain, 0);
}

/// Over a whole stream the packets that come out are those that went in, wherever the pages were
/// cut, and a full last segment stays open at its end.
#[test]
fn streams_give_back_their_packets() {
    let long = vec![3u8; 765];
    let mut stream = page(10, &[b"a", &[], &[1u8; 255]], false);
    stream.extend(page(20, &[&long], true));
    stream.extend(page(30, &[b"tail", b"b"], false));
    stream.extend(page(40, &[&[9u8; 255]], true));
    let mut joined = long.clone();
    joined.extend_from_slice(b"tail");
    let mut reader = PageReader::new(ByteSource::whole(stream));
    let mut got = Vec::new();
    while let Some(p) = reader.next_packet().unwrap() {
        got.push(p);
    }
    assert_eq!(
        got,
        vec![
            (b"a".to_vec(), None),
            (vec![], None),
            (vec![1u8; 255], Some(10)),
            (joined, None),
            (b"b".to_vec(), Some(30)),
        ]
    );
    assert!(reader.next_packet().unwrap().is_none());
}
