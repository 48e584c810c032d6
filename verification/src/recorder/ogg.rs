//! Reader for the Ogg Opus stream an audio sink serves: pages are taken as they arrive and split
//! into packets, a packet continued across pages reassembled. The first packet is the `OpusHead`
//! the audio track is declared from; every later packet comes with the page's granule position,
//! the 48 kHz sample count at the end of the last packet the page completes, which is the
//! recorder's audio clock.

use std::collections::VecDeque;
use vstd::prelude::*;
use vstd::slice::slice_subrange;
use crate::bytes;

verus! {

/// What `OpusHead` declares; `mapping` holds the stream count, coupled count and channel table
/// for channel mapping family 1 and is empty for family 0.
pub struct OpusHead {
    pub channels: u8,
    pub pre_skip: u16,
    pub input_sample_rate: u32,
    pub output_gain: i16,
    pub mapping_family: u8,
    pub mapping: Vec<u8>,
}

/// The head's magic: `OpusHead`.
pub open spec fn head_magic() -> Seq<u8> {
    seq![0x4fu8, 0x70, 0x75, 0x73, 0x48, 0x65, 0x61, 0x64]
}

/// The bytes of a head's channel mapping: none for family 0, else the stream count, the coupled
/// count and one entry a channel.
pub open spec fn mapping_len(packet: Seq<u8>) -> int {
    if packet[18] == 0 {
        0
    } else {
        2 + packet[9]
    }
}

/// A packet that is a whole head.
pub open spec fn is_opus_head(packet: Seq<u8>) -> bool {
    packet.len() >= 19 && packet.subrange(0, 8) == head_magic() && packet.len() >= 19 + mapping_len(
        packet,
    )
}

/// The head's fields stand in the packet, little-endian, behind the magic and the version.
pub open spec fn head_of(h: OpusHead, packet: Seq<u8>) -> bool {
    &&& h.channels == packet[9]
    &&& h.pre_skip == bytes::le16_at(packet, 10)
    &&& h.input_sample_rate == bytes::le32_at(packet, 12)
    &&& h.output_gain == bytes::le16_at(packet, 16) as i16
    &&& h.mapping_family == packet[18]
    &&& h.mapping@ == packet.subrange(19, 19 + mapping_len(packet))
}

/// Read a head packet's fields; none for any other packet or one cut short.
pub fn parse_opus_head(packet: &[u8]) -> (h: Option<OpusHead>)
    ensures
        h is Some <==> is_opus_head(packet@),
        h matches Some(head) ==> head_of(head, packet@),
{
    if packet.len() < 19 {
        return None;
    }
    let magic: [u8; 8] = [0x4f, 0x70, 0x75, 0x73, 0x48, 0x65, 0x61, 0x64];
    assert(magic@ =~= head_magic());
    let mut i: usize = 0;
    while i < 8
        invariant
            i <= 8,
            packet.len() >= 19,
            magic@ == head_magic(),
            forall|k: int| 0 <= k < i ==> packet@[k] == magic@[k],
        decreases 8 - i,
    {
        if packet[i] != magic[i] {
            assert(packet@.subrange(0, 8)[i as int] != head_magic()[i as int]);
            return None;
        }
        i += 1;
    }
    assert(packet@.subrange(0, 8) =~= head_magic());
    let mapping_family: u8 = packet[18];
    let channels: u8 = packet[9];
    let end: usize = if mapping_family == 0 {
        19
    } else {
        21 + channels as usize
    };
    if packet.len() < end {
        return None;
    }
    let mut mapping: Vec<u8> = Vec::new();
    bytes::push_all(&mut mapping, slice_subrange(packet, 19, end));
    assert(mapping@ =~= packet@.subrange(19, end as int));
    Some(
        OpusHead {
            channels,
            pre_skip: bytes::read_le16(packet, 10),
            input_sample_rate: bytes::read_le32(packet, 12),
            output_gain: bytes::read_le16(packet, 16) as i16,
            mapping_family,
            mapping,
        },
    )
}

/// A packet with its granule: the page's on the last packet a page completes, none otherwise.
pub type PacketView = (Seq<u8>, Option<u64>);

/// What stands at the front of a byte stream.
pub enum Front {
    /// Less than a page.
    Short,
    /// A page header's worth of bytes that is not one.
    NotOgg,
    /// A whole page of `len` bytes.
    Page { len: int, granule: u64, lacing: Seq<u8>, body: Seq<u8> },
}

/// The sum of a page's lacing values: the length of its body.
pub open spec fn laced_len(lacing: Seq<u8>) -> nat
    decreases lacing.len(),
{
    if lacing.len() == 0 {
        0
    } else {
        laced_len(lacing.drop_last()) + lacing.last() as nat
    }
}

/// The page magic, `OggS`, opens the stream.
pub open spec fn opens_with_magic(s: Seq<u8>) -> bool {
    s[0] == 0x4f && s[1] == 0x67 && s[2] == 0x67 && s[3] == 0x53
}

/// The page at the front of a stream: a header of 27 bytes closed by the segment count, the
/// lacing values, then the body.
pub open spec fn front(s: Seq<u8>) -> Front {
    if s.len() < 27 {
        Front::Short
    } else if !opens_with_magic(s) {
        Front::NotOgg
    } else {
        let n = s[26] as int;
        if s.len() < 27 + n {
            Front::Short
        } else {
            let lacing = s.subrange(27, 27 + n);
            let body_at = 27 + n;
            let len = body_at + laced_len(lacing);
            if s.len() < len {
                Front::Short
            } else {
                Front::Page {
                    len,
                    granule: bytes::le64_at(s, 6),
                    lacing,
                    body: s.subrange(body_at, len),
                }
            }
        }
    }
}

/// What a page's segments make of the packet carried into it: the packets completed and the
/// packet left open. Segments join until one is shorter than 255 bytes, which closes a packet.
pub open spec fn unlaced(carry: Seq<u8>, lacing: Seq<u8>, body: Seq<u8>) -> (
    Seq<Seq<u8>>,
    Seq<u8>,
)
    decreases lacing.len(),
{
    if lacing.len() == 0 {
        (seq![], carry)
    } else {
        let n = lacing[0] as int;
        let joined = carry + body.subrange(0, n);
        let rest = body.subrange(n, body.len() as int);
        if n < 255 {
            let (done, open) = unlaced(seq![], lacing.drop_first(), rest);
            (seq![joined] + done, open)
        } else {
            unlaced(joined, lacing.drop_first(), rest)
        }
    }
}

/// Packets of one page, the granule on the last.
pub open spec fn tagged(packets: Seq<Seq<u8>>, granule: u64) -> Seq<PacketView> {
    Seq::new(
        packets.len(),
        |i: int|
            (
                packets[i],
                if i == packets.len() - 1 {
                    Some(granule)
                } else {
                    None
                },
            ),
    )
}

/// A reader's state: the bytes not read yet, whether more can follow, the packet left open and
/// the packets read but not handed out.
pub struct ReaderView {
    pub unread: Seq<u8>,
    pub ended: bool,
    pub carry: Seq<u8>,
    pub pending: Seq<PacketView>,
}

/// What asking for a packet gives.
pub enum Asked {
    Packet(PacketView),
    Ended,
    Starved,
    NotOgg,
}

impl ReaderView {
    /// The state once the page at the front was taken.
    pub open spec fn past_page(self, len: int, granule: u64, lacing: Seq<u8>, body: Seq<u8>) -> Self {
        let (done, open) = unlaced(self.carry, lacing, body);
        ReaderView {
            unread: self.unread.skip(len),
            carry: open,
            pending: self.pending + tagged(done, granule),
            ..self
        }
    }

    /// Asking for a packet: the first one read, taking pages from the front until there is one.
    pub open spec fn ask(self) -> (Asked, Self)
        decreases self.unread.len(),
    {
        if self.pending.len() > 0 {
            (Asked::Packet(self.pending[0]), ReaderView { pending: self.pending.skip(1), ..self })
        } else {
            match front(self.unread) {
                Front::Short => (
                    if self.ended {
                        Asked::Ended
                    } else {
                        Asked::Starved
                    },
                    self,
                ),
                Front::NotOgg => (
                    Asked::NotOgg,
                    ReaderView { unread: self.unread.skip(27), ..self },
                ),
                Front::Page { len, granule, lacing, body } => {
                    self.past_page(len, granule, lacing, body).ask()
                },
            }
        }
    }
}

/// The bytes that have arrived from the audio sink.
pub struct ByteSource {
    data: Vec<u8>,
    at: usize,
    ended: bool,
}

impl ByteSource {
    /// The bytes not taken yet.
    pub closed spec fn unread(&self) -> Seq<u8> {
        self.data@.subrange(self.at as int, self.data@.len() as int)
    }

    /// No more bytes can follow.
    pub closed spec fn ended(&self) -> bool {
        self.ended
    }

    #[verifier::type_invariant]
    spec fn wf(self) -> bool {
        self.at <= self.data@.len()
    }

    /// A source nothing has arrived from yet.
    pub fn new() -> (s: Self)
        ensures
            s.unread() == Seq::<u8>::empty(),
            !s.ended(),
    {
        let s = ByteSource { data: Vec::new(), at: 0, ended: false };
        assert(s.unread() =~= Seq::<u8>::empty());
        s
    }

    /// A source whose bytes are all there.
    pub fn whole(data: Vec<u8>) -> (s: Self)
        ensures
            s.unread() == data@,
            s.ended(),
    {
        let s = ByteSource { data, at: 0, ended: true };
        assert(s.unread() =~= data@);
        s
    }

    /// Bytes arrived.
    pub fn feed(&mut self, more: &[u8])
        ensures
            final(self).unread() == old(self).unread() + more@,
            final(self).ended() == old(self).ended(),
    {
        proof {
            use_type_invariant(&*self);
        }
        let mut data: Vec<u8> = Vec::new();
        bytes::push_all(&mut data, slice_subrange(self.data.as_slice(), self.at, self.data.len()));
        bytes::push_all(&mut data, more);
        assert(data@ =~= self.unread() + more@);
        *self = ByteSource { data, at: 0, ended: self.ended };
        assert(self.unread() =~= data@);
    }

    /// The peer closed the stream.
    pub fn end(&mut self)
        ensures
            final(self).unread() == old(self).unread(),
            final(self).ended(),
    {
        proof {
            use_type_invariant(&*self);
        }
        self.ended = true;
    }

    fn rest(&self) -> (s: &[u8])
        ensures
            s@ == self.unread(),
    {
        proof {
            use_type_invariant(self);
        }
        slice_subrange(self.data.as_slice(), self.at, self.data.len())
    }

    fn advance(&mut self, n: usize)
        requires
            n <= old(self).unread().len(),
        ensures
            final(self).unread() == old(self).unread().skip(n as int),
            final(self).ended() == old(self).ended(),
    {
        proof {
            use_type_invariant(&*self);
        }
        assert(self.data.len() == self.data@.len());
        let at: usize = self.at + n;
        self.at = at;
        assert(self.unread() =~= old(self).unread().skip(n as int));
    }
}

/// Why no packet could be given.
#[derive(Clone, Copy, Debug, PartialEq, Eq, Structural)]
pub enum PageError {
    /// The stream is not made of Ogg pages.
    NotOgg,
    /// The next page has not arrived whole.
    Starved,
}

/// Splits an Ogg stream into packets.
pub struct PageReader {
    inner: ByteSource,
    /// A packet the previous page did not complete.
    carry: Vec<u8>,
    pending: VecDeque<(Vec<u8>, Option<u64>)>,
}

/// The contents of a packet with its granule.
pub open spec fn packet_view(p: (Vec<u8>, Option<u64>)) -> PacketView {
    (p.0@, p.1)
}

impl View for PageReader {
    type V = ReaderView;

    closed spec fn view(&self) -> ReaderView {
        ReaderView {
            unread: self.inner.unread(),
            ended: self.inner.ended(),
            carry: self.carry@,
            pending: self.pending@.map_values(|p: (Vec<u8>, Option<u64>)| packet_view(p)),
        }
    }
}

impl PageReader {
    /// A reader at the front of a source.
    pub fn new(inner: ByteSource) -> (r: Self)
        ensures
            r@ == (ReaderView {
                unread: inner.unread(),
                ended: inner.ended(),
                carry: seq![],
                pending: seq![],
            }),
    {
        let r = PageReader { inner, carry: Vec::new(), pending: VecDeque::new() };
        assert(r@.carry =~= seq![]);
        assert(r@.pending =~= seq![]);
        r
    }

    /// The source, to hand it more bytes.
    pub fn inner_mut(&mut self) -> (s: &mut ByteSource)
        ensures
            s.unread() == old(self)@.unread,
            s.ended() == old(self)@.ended,
            final(self)@ == (ReaderView {
                unread: final(s).unread(),
                ended: final(s).ended(),
                ..old(self)@
            }),
    {
        &mut self.inner
    }

    /// The next packet with the granule of the page it completes, `None` on the page's earlier
    /// packets; `Ok(None)` once the stream has ended.
    pub fn next_packet(&mut self) -> (r: Result<Option<(Vec<u8>, Option<u64>)>, PageError>)
        ensures
            final(self)@ == old(self)@.ask().1,
            match old(self)@.ask().0 {
                Asked::Packet(p) => r matches Ok(Some(got)) && packet_view(got) == p,
                Asked::Ended => r matches Ok(None),
                Asked::Starved => r == Err::<Option<(Vec<u8>, Option<u64>)>, _>(PageError::Starved),
                Asked::NotOgg => r == Err::<Option<(Vec<u8>, Option<u64>)>, _>(PageError::NotOgg),
            },
    {
        let ghost asked = self@.ask();
        while self.pending.len() == 0
            invariant
                asked == self@.ask(),
                asked == old(self)@.ask(),
            decreases self@.unread.len(),
        {
            assert(self@.pending.len() == 0);
            match self.read_page() {
                Ok(true) => {},
                Ok(false) => {
                    return Ok(None);
                },
                Err(e) => {
                    return Err(e);
                },
            }
        }
        assert(self@.pending.len() > 0);
        let ghost before = self@;
        let packet = self.pending.pop_front();
        assert(self@.pending =~= before.pending.skip(1));
        Ok(packet)
    }

    /// Take the page at the front; `Ok(false)` once the stream has ended.
    fn read_page(&mut self) -> (r: Result<bool, PageError>)
        ensures
            match front(old(self)@.unread) {
                Front::Short => final(self)@ == old(self)@ && r == if old(self)@.ended {
                    Ok::<bool, PageError>(false)
                } else {
                    Err::<bool, PageError>(PageError::Starved)
                },
                Front::NotOgg => final(self)@ == (ReaderView {
                    unread: old(self)@.unread.skip(27),
                    ..old(self)@
                }) && r == Err::<bool, PageError>(PageError::NotOgg) && old(self)@.unread.len()
                    >= 27,
                Front::Page { len, granule, lacing, body } => final(self)@ == old(self)@.past_page(
                    len,
                    granule,
                    lacing,
                    body,
                ) && r == Ok::<bool, PageError>(true) && 0 < len <= old(self)@.unread.len(),
            },
    {
        let s = self.inner.rest();
        if s.len() < 27 {
            return self.short();
        }
        if s[0] != 0x4f || s[1] != 0x67 || s[2] != 0x67 || s[3] != 0x53 {
            self.inner.advance(27);
            return Err(PageError::NotOgg);
        }
        let granule: u64 = bytes::read_le64(s, 6);
        let segments: usize = s[26] as usize;
        if s.len() < 27 + segments {
            return self.short();
        }
        let lacing = slice_subrange(s, 27, 27 + segments);
        let body_len: usize = body_length(lacing);
        if s.len() - 27 - segments < body_len {
            return self.short();
        }
        let len: usize = 27 + segments + body_len;
        let body = slice_subrange(s, 27 + segments, len);
        let (completed, open) = unlace(self.carry.as_slice(), lacing, body);
        let ghost done = completed@.map_values(|p: Vec<u8>| p@);
        self.carry = open;
        self.inner.advance(len);
        self.queue(completed, granule);
        assert(self@.pending =~= old(self)@.pending + tagged(done, granule));
        Ok(true)
    }

    fn short(&self) -> (r: Result<bool, PageError>)
        ensures
            r == if self@.ended {
                Ok::<bool, PageError>(false)
            } else {
                Err::<bool, PageError>(PageError::Starved)
            },
    {
        if self.inner.ended {
            Ok(false)
        } else {
            Err(PageError::Starved)
        }
    }

    fn queue(&mut self, completed: Vec<Vec<u8>>, granule: u64)
        ensures
            final(self)@ == (ReaderView {
                pending: old(self)@.pending + tagged(
                    completed@.map_values(|p: Vec<u8>| p@),
                    granule,
                ),
                ..old(self)@
            }),
    {
        let ghost done = completed@.map_values(|p: Vec<u8>| p@);
        let ghost start = self@;
        let mut left = completed;
        let ghost mut k: int = 0;
        assert(self@.pending =~= start.pending + tagged(done, granule).take(0));
        while left.len() > 0
            invariant
                0 <= k <= done.len(),
                left@.len() == done.len() - k,
                forall|j: int| 0 <= j < left@.len() ==> #[trigger] left@[j]@ == done[k + j],
                self@ == (ReaderView {
                    pending: start.pending + tagged(done, granule).take(k),
                    ..start
                }),
            decreases left.len(),
        {
            let ghost before = self@;
            let last: bool = left.len() == 1;
            let ghost held = left@;
            let packet = left.remove(0);
            assert(packet@ == done[k]) by {
                assert(held[0]@ == done[k + 0]);
            }
            let tag: Option<u64> = if last {
                Some(granule)
            } else {
                None
            };
            self.pending.push_back((packet, tag));
            assert(self@.pending =~= before.pending.push((done[k], tag)));
            assert(tagged(done, granule).take(k + 1) =~= tagged(done, granule).take(k).push(
                tagged(done, granule)[k],
            ));
            assert(self@.pending =~= start.pending + tagged(done, granule).take(k + 1));
            assert forall|j: int| 0 <= j < left@.len() implies #[trigger] left@[j]@ == done[k + 1
                + j] by {
                assert(left@[j] == held[j + 1]);
            }
            proof {
                k = k + 1;
            }
        }
        assert(tagged(done, granule).take(k) =~= tagged(done, granule));
    }
}

/// The length of the body a page's lacing values describe.
fn body_length(lacing: &[u8]) -> (n: usize)
    requires
        lacing.len() <= 255,
    ensures
        n == laced_len(lacing@),
        n <= 255 * lacing.len(),
{
    let mut n: usize = 0;
    let mut i: usize = 0;
    while i < lacing.len()
        invariant
            i <= lacing.len() <= 255,
            n == laced_len(lacing@.take(i as int)),
            n <= 255 * i,
        decreases lacing.len() - i,
    {
        assert(lacing@.take(i + 1).drop_last() =~= lacing@.take(i as int));
        n += lacing[i] as usize;
        i += 1;
    }
    assert(lacing@.take(i as int) =~= lacing@);
    n
}

proof fn laced_len_prefix(lacing: Seq<u8>, i: int)
    requires
        0 <= i <= lacing.len(),
    ensures
        laced_len(lacing.take(i)) <= laced_len(lacing),
        i < lacing.len() ==> laced_len(lacing.take(i + 1)) == laced_len(lacing.take(i)) + lacing[i],
    decreases lacing.len() - i,
{
    if i < lacing.len() {
        assert(lacing.take(i + 1).drop_last() =~= lacing.take(i));
        laced_len_prefix(lacing, i + 1);
    } else {
        assert(lacing.take(i) =~= lacing);
    }
}

/// The lacing values of one whole packet: a full segment for every 255 bytes, then the rest,
/// which is shorter and closes the packet.
pub open spec fn packet_lacing(len: nat) -> Seq<u8>
    decreases len,
{
    if len < 255 {
        seq![len as u8]
    } else {
        seq![255u8] + packet_lacing((len - 255) as nat)
    }
}

/// The lacing values of packets laid one behind another.
pub open spec fn packets_lacing(packets: Seq<Seq<u8>>) -> Seq<u8>
    decreases packets.len(),
{
    if packets.len() == 0 {
        seq![]
    } else {
        packet_lacing(packets[0].len()) + packets_lacing(packets.drop_first())
    }
}

/// Packets laid one behind another.
pub open spec fn joined(packets: Seq<Seq<u8>>) -> Seq<u8>
    decreases packets.len(),
{
    if packets.len() == 0 {
        seq![]
    } else {
        packets[0] + joined(packets.drop_first())
    }
}

/// `n` full segments.
pub open spec fn full_segments(n: nat) -> Seq<u8> {
    Seq::new(n, |i: int| 255u8)
}

/// A page of whole packets gives back exactly those packets, the first of them joined to
/// whatever the page before left open, and leaves nothing open itself.
pub proof fn packets_survive_paging(carry: Seq<u8>, packets: Seq<Seq<u8>>)
    requires
        packets.len() > 0,
    ensures
        unlaced(carry, packets_lacing(packets), joined(packets)) == (
            packets.update(0, carry + packets[0]),
            Seq::<u8>::empty(),
        ),
    decreases packets.len(),
{
    let rest = packets.drop_first();
    let tail = packets_lacing(rest);
    let more = joined(rest);
    one_packet_survives(carry, packets[0], tail, more);
    if rest.len() == 0 {
        assert(unlaced(seq![], tail, more).0 =~= seq![]);
        assert(seq![carry + packets[0]] + unlaced(seq![], tail, more).0 =~= packets.update(
            0,
            carry + packets[0],
        ));
    } else {
        packets_survive_paging(seq![], rest);
        assert(rest.update(0, seq![] + rest[0]) =~= rest) by {
            assert(seq![] + rest[0] =~= rest[0]);
        }
        assert(seq![carry + packets[0]] + rest =~= packets.update(0, carry + packets[0]));
    }
}

proof fn one_packet_survives(carry: Seq<u8>, packet: Seq<u8>, tail: Seq<u8>, more: Seq<u8>)
    ensures
        unlaced(carry, packet_lacing(packet.len()) + tail, packet + more) == (
            seq![carry + packet] + unlaced(seq![], tail, more).0,
            unlaced(seq![], tail, more).1,
        ),
    decreases packet.len(),
{
    let lacing = packet_lacing(packet.len()) + tail;
    let body = packet + more;
    if packet.len() < 255 {
        let n = packet.len() as int;
        assert(lacing.drop_first() =~= tail);
        assert(body.subrange(0, n) =~= packet);
        assert(body.subrange(n, body.len() as int) =~= more);
    } else {
        let segment = packet.subrange(0, 255);
        let rest = packet.skip(255);
        assert(lacing.drop_first() =~= packet_lacing(rest.len()) + tail);
        assert(body.subrange(0, 255) =~= segment);
        assert(body.subrange(255, body.len() as int) =~= rest + more);
        one_packet_survives(carry + segment, rest, tail, more);
        assert(carry + segment + rest =~= carry + packet);
    }
}

/// A page of full segments closes nothing: its whole body is added to the packet left open, so a
/// packet cut across pages comes out whole from the page that closes it.
pub proof fn full_segments_stay_open(carry: Seq<u8>, n: nat, body: Seq<u8>)
    requires
        body.len() == 255 * n,
    ensures
        unlaced(carry, full_segments(n), body) == (Seq::<Seq<u8>>::empty(), carry + body),
    decreases n,
{
    let lacing = full_segments(n);
    if n == 0 {
        assert(carry + body =~= carry);
    } else {
        assert(lacing.drop_first() =~= full_segments((n - 1) as nat));
        let segment = body.subrange(0, 255);
        let rest = body.subrange(255, body.len() as int);
        full_segments_stay_open(carry + segment, (n - 1) as nat, rest);
        assert(carry + segment + rest =~= carry + body);
    }
}

/// Join a page's segments onto the packet carried into it.
fn unlace(carry: &[u8], lacing: &[u8], body: &[u8]) -> (r: (Vec<Vec<u8>>, Vec<u8>))
    requires
        body.len() == laced_len(lacing@),
    ensures
        r.0@.map_values(|p: Vec<u8>| p@) == unlaced(carry@, lacing@, body@).0,
        r.1@ == unlaced(carry@, lacing@, body@).1,
{
    let mut completed: Vec<Vec<u8>> = Vec::new();
    let mut open: Vec<u8> = Vec::new();
    bytes::push_all(&mut open, carry);
    let mut at: usize = 0;
    let mut i: usize = 0;
    let ghost whole = unlaced(carry@, lacing@, body@);
    assert(open@ =~= carry@);
    assert(lacing@.skip(0) =~= lacing@);
    assert(body@.skip(0) =~= body@);
    assert(lacing@.take(0) =~= seq![]);
    assert(completed@.map_values(|p: Vec<u8>| p@) + unlaced(open@, lacing@, body@).0 =~= whole.0);
    while i < lacing.len()
        invariant
            i <= lacing.len(),
            at <= body.len(),
            at == laced_len(lacing@.take(i as int)),
            body.len() == laced_len(lacing@),
            whole.0 == completed@.map_values(|p: Vec<u8>| p@) + unlaced(
                open@,
                lacing@.skip(i as int),
                body@.skip(at as int),
            ).0,
            whole.1 == unlaced(open@, lacing@.skip(i as int), body@.skip(at as int)).1,
        decreases lacing.len() - i,
    {
        let n: usize = lacing[i] as usize;
        proof {
            laced_len_prefix(lacing@, i as int);
            laced_len_prefix(lacing@, i + 1);
        }
        let ghost rest = lacing@.skip(i as int);
        let ghost left = body@.skip(at as int);
        let ghost was = open@;
        let ghost done = completed@.map_values(|p: Vec<u8>| p@);
        bytes::push_all(&mut open, slice_subrange(body, at, at + n));
        assert(rest[0] == lacing@[i as int]);
        assert(rest.drop_first() =~= lacing@.skip(i + 1));
        assert(left.subrange(0, n as int) =~= body@.subrange(at as int, at + n));
        assert(left.subrange(n as int, left.len() as int) =~= body@.skip(at + n));
        assert(open@ =~= was + left.subrange(0, n as int));
        if n < 255 {
            let ghost packet = open@;
            completed.push(open);
            open = Vec::new();
            assert(open@ =~= seq![]);
            assert(completed@.map_values(|p: Vec<u8>| p@) =~= done.push(packet));
            assert(done.push(packet) + unlaced(seq![], rest.drop_first(), body@.skip(at + n)).0
                =~= done + unlaced(was, rest, left).0);
        }
        at += n;
        i += 1;
    }
    assert(lacing@.skip(i as int) =~= seq![]);
    assert(whole.0 =~= completed@.map_values(|p: Vec<u8>| p@));
    (completed, open)
}

} // verus!
