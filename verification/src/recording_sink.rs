//! Video fan-out for external recorders on a Unix socket.
//!
//! Frames are intercepted at the delivery layer, so the tap works for every full-frame encoder.
//! The wire header is skipped, and a consumer receives a plain elementary stream that is directly
//! muxable: Annex-B for H.264 and H.265, temporal units for AV1 (each opened by a temporal
//! delimiter), and IVF for VP8 and VP9, whose raw frames carry no framing of their own.
//!
//! The tap never perturbs the live stream. The sink decides what each client is owed; the sockets
//! and their bounded queues are fed by the caller, who reports back which clients took their
//! frame. A client that did not is dropped.

use vstd::prelude::*;
use vstd::slice::slice_subrange;
use crate::bytes;
use crate::bytes::{push_le16, push_le32, push_le64};
use crate::encoders::{Codec, EncodedStripe, VIDEO_HEADER_LEN, WIRE_VIDEO};

verus! {

/// Per-client backlog bound. A recorder that falls this far behind is dropped rather than
/// allowed to grow memory or push back on the encode thread.
pub const CLIENT_QUEUE_CAP: usize = 256;

/// Milliseconds a write to a client may block before it is retried.
pub const WRITE_TIMEOUT_MS: u64 = 100;

/// Milliseconds between two looks for a waiting client.
pub const ACCEPT_POLL_INTERVAL_MS: u64 = 50;

/// The header of an IVF file: its mark, version, own length, the codec, the size, the rate over
/// a scale of one, and no frame count.
pub open spec fn ivf_file_header(codec: Codec, size: (u16, u16), fps: u32) -> Seq<u8> {
    seq![0x44u8, 0x4b, 0x49, 0x46] + bytes::le16(0) + bytes::le16(32) + seq![
        0x56u8,
        0x50,
        if codec == Codec::Vp8 {
            0x38u8
        } else {
            0x39u8
        },
        0x30,
    ] + bytes::le16(size.0) + bytes::le16(size.1) + bytes::le32(fps) + bytes::le32(1)
        + bytes::le32(0) + bytes::le32(0)
}

/// The header of an IVF frame: the payload's length and the frame's index.
pub open spec fn ivf_frame_header(len: nat, index: u64) -> Seq<u8> {
    bytes::le32((len % 0x1_0000_0000) as u32) + bytes::le64(index)
}

/// An AV1 unit opens with a temporal delimiter: its first OBU has that type.
pub open spec fn opens_with_delimiter(payload: Seq<u8>) -> bool {
    payload.len() > 0 && payload[0] / 8 % 16 == 2
}

/// The container bytes ahead of a client's `index`th frame.
pub open spec fn prefix_bytes(
    codec: Codec,
    payload: Seq<u8>,
    index: u64,
    size: (u16, u16),
    fps: u32,
) -> Seq<u8> {
    if codec == Codec::Vp8 || codec == Codec::Vp9 {
        if index == 0 {
            ivf_file_header(codec, size, fps) + ivf_frame_header(payload.len(), index)
        } else {
            ivf_frame_header(payload.len(), index)
        }
    } else if codec == Codec::Av1 && !opens_with_delimiter(payload) {
        seq![0x12u8, 0x00]
    } else {
        Seq::empty()
    }
}

/// The container bytes a client's stream needs ahead of its `index`th frame: an IVF file header
/// (on the first frame) and frame header for VP8 and VP9, a temporal delimiter for an AV1 unit
/// that does not open with one, nothing for the Annex-B codecs.
pub fn stream_prefix(codec: Codec, payload: &[u8], index: u64, size: (u16, u16), fps: u32) -> (out:
    Vec<u8>)
    ensures
        out@ == prefix_bytes(codec, payload@, index, size, fps),
{
    let mut out: Vec<u8> = Vec::new();
    match codec {
        Codec::Vp8 | Codec::Vp9 => {
            if index == 0 {
                out.push(0x44);
                out.push(0x4b);
                out.push(0x49);
                out.push(0x46);
                push_le16(&mut out, 0);
                push_le16(&mut out, 32);
                out.push(0x56);
                out.push(0x50);
                out.push(
                    if codec == Codec::Vp8 {
                        0x38
                    } else {
                        0x39
                    },
                );
                out.push(0x30);
                push_le16(&mut out, size.0);
                push_le16(&mut out, size.1);
                push_le32(&mut out, fps);
                push_le32(&mut out, 1);
                push_le32(&mut out, 0);
                push_le32(&mut out, 0);
                assert(out@ =~= ivf_file_header(codec, size, fps));
            }
            let ghost head = out@;
            let len: u64 = payload.len() as u64;
            push_le32(&mut out, (len % 0x1_0000_0000) as u32);
            push_le64(&mut out, index);
            assert(out@ =~= head + ivf_frame_header(payload@.len(), index));
        },
        Codec::Av1 => {
            if payload.len() == 0 || payload[0] / 8 % 16 != 2 {
                out.push(0x12);
                out.push(0x00);
            }
        },
        _ => {},
    }
    assert(out@ =~= prefix_bytes(codec, payload@, index, size, fps));
    out
}

/// Of an IVF client's frame the payload's length and the frame's index read back, twelve and
/// eight bytes ahead of the payload, and the file header comes ahead of the first frame alone.
pub proof fn ivf_headers_read_back(
    codec: Codec,
    payload: Seq<u8>,
    index: u64,
    size: (u16, u16),
    fps: u32,
)
    requires
        codec == Codec::Vp8 || codec == Codec::Vp9,
        payload.len() < 0x1_0000_0000,
    ensures
        ({
            let prefix = prefix_bytes(codec, payload, index, size, fps);
            &&& prefix.len() == if index == 0 {
                44int
            } else {
                12
            }
            &&& bytes::le32_at(prefix, prefix.len() - 12) == payload.len()
            &&& bytes::le64_at(prefix, prefix.len() - 8) == index
            &&& index == 0 ==> {
                &&& bytes::le16_at(prefix, 12) == size.0
                &&& bytes::le16_at(prefix, 14) == size.1
                &&& bytes::le32_at(prefix, 16) == fps
            }
        }),
{
    let prefix = prefix_bytes(codec, payload, index, size, fps);
    let n = prefix.len() as int;
    let low = (index % 0x1_0000_0000) as u32;
    let high = (index / 0x1_0000_0000) as u32;
    assert(prefix.subrange(n - 12, n - 8) =~= bytes::le32(payload.len() as u32));
    assert(prefix.subrange(n - 8, n - 4) =~= bytes::le32(low));
    assert(prefix.subrange(n - 4, n) =~= bytes::le32(high));
    bytes::le32_read_at(prefix, n - 12, payload.len() as u32);
    bytes::le32_read_at(prefix, n - 8, low);
    bytes::le32_read_at(prefix, n - 4, high);
    if index == 0 {
        assert(prefix.subrange(16, 20) =~= bytes::le32(fps));
        bytes::le32_read_at(prefix, 16, fps);
        assert(prefix[12] == size.0 % 0x100 && prefix[13] == size.0 / 0x100);
        assert(prefix[14] == size.1 % 0x100 && prefix[15] == size.1 / 0x100);
    }
}

/// A connected recorder: the caller's handle to it, and how many frames it has been sent.
#[derive(Clone, Copy, Debug, PartialEq, Eq, Structural)]
pub struct Client {
    pub id: u64,
    pub frames: u64,
}

/// What one delivered frame asks of the caller.
#[derive(Debug)]
pub enum Tap {
    /// Nothing to send.
    Idle,
    /// The session's video frames are striped, and no elementary stream could hold them; `first`
    /// the first time, when the user is told.
    Unrecordable { first: bool },
    /// Each client is owed its prefix, then the stripe's bytes from `offset` on.
    Frames { stripe: usize, offset: usize, prefixes: Vec<Vec<u8>> },
}

/// Fan-out of every encoded video frame to the connected recorders.
#[derive(Debug)]
pub struct RecordingSink {
    pub clients: Vec<Client>,
    /// A client connected since the last keyframe request was taken.
    pub client_connected: bool,
    /// The user was told that the frames are unrecordable.
    pub warned_unrecordable: bool,
    /// The frame rate an IVF header declares.
    pub fps: u32,
}

/// The `i`th stripe carries video.
pub open spec fn video_at(stripes: Seq<EncodedStripe>, i: int) -> bool {
    0 <= i < stripes.len() && stripes[i].codec.video() && stripes[i].data@.len() > 0
}

/// The `i`th stripe is the frame's only video and spans its height.
pub open spec fn lone_full_frame(stripes: Seq<EncodedStripe>, full_height: i32, i: int) -> bool {
    &&& video_at(stripes, i)
    &&& forall|j: int| #[trigger] video_at(stripes, j) ==> j == i
    &&& stripes[i].stripe_y_start == 0
    &&& stripes[i].stripe_height == full_height
}

/// Where a stripe's elementary stream starts: past the wire header where it has one.
pub open spec fn stream_offset(data: Seq<u8>) -> nat {
    if data.len() >= VIDEO_HEADER_LEN && data[0] == WIRE_VIDEO {
        VIDEO_HEADER_LEN as nat
    } else {
        0
    }
}

/// Where a stripe's elementary stream starts.
pub fn payload_offset(data: &[u8]) -> (n: usize)
    ensures
        n == stream_offset(data@),
        n <= data@.len(),
{
    if data.len() >= VIDEO_HEADER_LEN && data[0] == WIRE_VIDEO {
        VIDEO_HEADER_LEN
    } else {
        0
    }
}

/// The low sixteen bits of a dimension.
pub open spec fn low16(v: i32) -> u16 {
    (v as int % 0x1_0000) as u16
}

/// What a delivered frame asks of the caller and does to the sink.
pub open spec fn tapped(
    before: RecordingSink,
    after: RecordingSink,
    stripes: Seq<EncodedStripe>,
    full_width: i32,
    full_height: i32,
    tap: Tap,
) -> bool {
    &&& after.client_connected == before.client_connected
    &&& after.fps == before.fps
    &&& match tap {
        Tap::Idle => {
            &&& after == before
            &&& (forall|i: int| !video_at(stripes, i)) || exists|i: int|
                #[trigger] lone_full_frame(stripes, full_height, i) && (before.clients@.len() == 0
                    || stream_offset(stripes[i].data@) == stripes[i].data@.len())
        },
        Tap::Unrecordable { first } => {
            &&& exists|i: int| video_at(stripes, i)
            &&& forall|i: int| !lone_full_frame(stripes, full_height, i)
            &&& first == !before.warned_unrecordable
            &&& after.warned_unrecordable
            &&& after.clients == before.clients
        },
        Tap::Frames { stripe, offset, prefixes } => {
            let data = stripes[stripe as int].data@;
            &&& lone_full_frame(stripes, full_height, stripe as int)
            &&& offset == stream_offset(data)
            &&& offset < data.len()
            &&& before.clients@.len() > 0
            &&& after.warned_unrecordable == before.warned_unrecordable
            &&& after.clients@.len() == before.clients@.len()
            &&& prefixes@.len() == before.clients@.len()
            &&& forall|k: int|
                0 <= k < before.clients@.len() ==> {
                    &&& (#[trigger] after.clients@[k]).id == before.clients@[k].id
                    &&& after.clients@[k].frames == before.clients@[k].frames + 1
                }
            &&& forall|k: int|
                0 <= k < before.clients@.len() ==> (#[trigger] prefixes@[k])@ == prefix_bytes(
                    stripes[stripe as int].codec,
                    data.subrange(offset as int, data.len() as int),
                    before.clients@[k].frames,
                    (low16(full_width), low16(full_height)),
                    before.fps,
                )
        },
    }
}

/// Removing the `k`th of a sequence by putting the last in its place.
pub open spec fn swap_removed(clients: Seq<Client>, k: int) -> Seq<Client> {
    clients.update(k, clients.last()).drop_last()
}

/// The clients left once those from the `k`th on that did not take their frame are gone, the
/// last first.
pub open spec fn survivors(clients: Seq<Client>, taken: Seq<bool>, k: int) -> Seq<Client>
    decreases taken.len() - k,
{
    if k >= taken.len() {
        clients
    } else {
        let rest = survivors(clients, taken, k + 1);
        if taken[k] {
            rest
        } else {
            swap_removed(rest, k)
        }
    }
}

/// The indices at which clients leave, in the order in which they do.
pub open spec fn leaving(taken: Seq<bool>, k: int) -> Seq<usize>
    decreases taken.len() - k,
{
    if k >= taken.len() {
        Seq::empty()
    } else if taken[k] {
        leaving(taken, k + 1)
    } else {
        leaving(taken, k + 1).push(k as usize)
    }
}

proof fn survivors_keep_a_prefix(clients: Seq<Client>, taken: Seq<bool>, k: int)
    requires
        taken.len() == clients.len(),
        0 <= k <= clients.len(),
    ensures
        survivors(clients, taken, k).len() >= k,
        survivors(clients, taken, k).len() <= clients.len(),
        forall|i: int| 0 <= i < k ==> survivors(clients, taken, k)[i] == clients[i],
    decreases taken.len() - k,
{
    if k < taken.len() {
        survivors_keep_a_prefix(clients, taken, k + 1);
    }
}

proof fn later_survivors_took_theirs(clients: Seq<Client>, taken: Seq<bool>, k: int, c: Client)
    requires
        taken.len() == clients.len(),
        0 <= k <= clients.len(),
    ensures
        (exists|i: int|
            k <= i < survivors(clients, taken, k).len() && #[trigger] survivors(clients, taken, k)[i]
                == c) <==> (exists|i: int|
            k <= i < clients.len() && taken[i] && #[trigger] clients[i] == c),
    decreases taken.len() - k,
{
    let now = survivors(clients, taken, k);
    survivors_keep_a_prefix(clients, taken, k);
    if k < taken.len() {
        let rest = survivors(clients, taken, k + 1);
        survivors_keep_a_prefix(clients, taken, k + 1);
        later_survivors_took_theirs(clients, taken, k + 1, c);
        assert(rest[k] == clients[k]);
        if exists|i: int| k <= i < now.len() && now[i] == c {
            let i = choose|i: int| k <= i < now.len() && now[i] == c;
            if taken[k] {
                if i == k {
                    assert(clients[k] == c);
                } else {
                    assert(rest[i] == c);
                    let j = choose|j: int| k < j < clients.len() && taken[j] && clients[j] == c;
                    assert(clients[j] == c);
                }
            } else {
                if i == k {
                    assert(rest[rest.len() - 1] == c);
                } else {
                    assert(rest[i] == c);
                }
                let j = choose|j: int| k < j < clients.len() && taken[j] && clients[j] == c;
                assert(clients[j] == c);
            }
        }
        if exists|i: int| k <= i < clients.len() && taken[i] && clients[i] == c {
            let i = choose|i: int| k <= i < clients.len() && taken[i] && clients[i] == c;
            if i == k {
                assert(now[k] == c);
            } else {
                assert(exists|i: int| k < i < clients.len() && taken[i] && clients[i] == c);
                let j = choose|j: int| k < j < rest.len() && rest[j] == c;
                if taken[k] || j < rest.len() - 1 {
                    assert(now[j] == c);
                } else {
                    assert(now[k] == c);
                }
            }
        }
    }
}

/// A client stays connected exactly where it took its frame.
pub proof fn clients_that_took_theirs_stay(clients: Seq<Client>, taken: Seq<bool>, c: Client)
    requires
        taken.len() == clients.len(),
    ensures
        survivors(clients, taken, 0).contains(c) <==> exists|i: int|
            0 <= i < clients.len() && taken[i] && #[trigger] clients[i] == c,
{
    later_survivors_took_theirs(clients, taken, 0, c);
}

impl RecordingSink {
    /// A sink for the socket at `settings_path`, or `None` when no path is configured: recording
    /// is an optional tap. An IVF header declares the frame rate to the nearest frame a second,
    /// and at least one.
    pub fn try_bind(settings_path: &str, fps_milli: u32) -> (sink: Option<RecordingSink>)
        ensures
            sink is None <==> settings_path@.len() == 0,
            sink matches Some(s) ==> {
                &&& s.clients@.len() == 0
                &&& !s.client_connected
                &&& !s.warned_unrecordable
                &&& s.fps == if fps_milli < 1500 {
                    1int
                } else {
                    (fps_milli + 500) / 1000
                }
            },
    {
        if settings_path.unicode_len() == 0 {
            return None;
        }
        let rounded: u64 = (fps_milli as u64 + 500) / 1000;
        let fps: u32 = if rounded < 1 {
            1
        } else {
            rounded as u32
        };
        Some(
            RecordingSink {
                clients: Vec::new(),
                client_connected: false,
                warned_unrecordable: false,
                fps,
            },
        )
    }

    /// A recorder connected.
    pub fn connect(&mut self, id: u64)
        ensures
            final(self).clients@ == old(self).clients@.push(Client { id, frames: 0 }),
            final(self).client_connected,
            final(self).warned_unrecordable == old(self).warned_unrecordable,
            final(self).fps == old(self).fps,
    {
        self.clients.push(Client { id, frames: 0 });
        self.client_connected = true;
    }

    /// Returns `true` exactly once after a new client connects: the next encode should produce a
    /// keyframe, so that the consumer starts from a clean reference frame.
    pub fn should_force_idr(&mut self) -> (b: bool)
        ensures
            b == old(self).client_connected,
            !final(self).client_connected,
            final(self).clients == old(self).clients,
            final(self).warned_unrecordable == old(self).warned_unrecordable,
            final(self).fps == old(self).fps,
    {
        let armed = self.client_connected;
        self.client_connected = false;
        armed
    }

    /// Delivery-layer tap for one encoded frame. The socket carries a single elementary stream,
    /// so only a lone full-height video stripe is recordable: striped software encodes are
    /// independent streams, and interleaving them would produce an undecodable file. The wire
    /// header is skipped, and the container bytes the codec's stream needs stand ahead of each
    /// client's frame.
    pub fn write_frame(
        &mut self,
        stripes: &[EncodedStripe],
        full_width: i32,
        full_height: i32,
    ) -> (tap: Tap)
        requires
            forall|k: int|
                0 <= k < old(self).clients@.len() ==> (#[trigger] old(self).clients@[k]).frames
                    < u64::MAX,
        ensures
            tapped(*old(self), *final(self), stripes@, full_width, full_height, tap),
    {
        let mut found: Option<usize> = None;
        let mut several = false;
        let mut i: usize = 0;
        while i < stripes.len()
            invariant
                i <= stripes@.len(),
                found is None ==> !several && forall|j: int| 0 <= j < i ==> !video_at(stripes@, j),
                found matches Some(f) ==> {
                    &&& f < i
                    &&& video_at(stripes@, f as int)
                    &&& !several ==> forall|j: int|
                        0 <= j < i && #[trigger] video_at(stripes@, j) ==> j == f
                    &&& several ==> exists|j: int| j != f && #[trigger] video_at(stripes@, j)
                },
            decreases stripes@.len() - i,
        {
            if stripes[i].codec.is_video() && stripes[i].data.len() > 0 {
                assert(video_at(stripes@, i as int));
                if found.is_none() {
                    found = Some(i);
                } else {
                    several = true;
                }
            }
            i += 1;
        }
        let f: usize = match found {
            None => {
                return Tap::Idle;
            },
            Some(f) => f,
        };
        if several || stripes[f].stripe_y_start != 0 || stripes[f].stripe_height != full_height {
            let first = !self.warned_unrecordable;
            self.warned_unrecordable = true;
            return Tap::Unrecordable { first };
        }
        assert(lone_full_frame(stripes@, full_height, f as int));
        let data: &Vec<u8> = &stripes[f].data;
        let offset: usize = payload_offset(data.as_slice());
        if data.len() == offset || self.clients.len() == 0 {
            return Tap::Idle;
        }
        let payload = slice_subrange(data.as_slice(), offset, data.len());
        let codec = stripes[f].codec;
        let width: u16 = ((full_width as i64 + 0x1_0000_0000) % 0x1_0000) as u16;
        let height: u16 = ((full_height as i64 + 0x1_0000_0000) % 0x1_0000) as u16;
        assert(width == low16(full_width) && height == low16(full_height));
        let mut prefixes: Vec<Vec<u8>> = Vec::new();
        let ghost before = *self;
        let mut k: usize = 0;
        while k < self.clients.len()
            invariant
                k <= self.clients@.len(),
                self.clients@.len() == before.clients@.len(),
                self.client_connected == before.client_connected,
                self.warned_unrecordable == before.warned_unrecordable,
                self.fps == before.fps,
                prefixes@.len() == k,
                forall|j: int|
                    0 <= j < before.clients@.len() ==> (#[trigger] before.clients@[j]).frames
                        < u64::MAX,
                forall|j: int|
                    0 <= j < k ==> {
                        &&& (#[trigger] self.clients@[j]).id == before.clients@[j].id
                        &&& self.clients@[j].frames == before.clients@[j].frames + 1
                    },
                forall|j: int| k <= j < before.clients@.len() ==> self.clients@[j]
                    == before.clients@[j],
                forall|j: int|
                    0 <= j < k ==> (#[trigger] prefixes@[j])@ == prefix_bytes(
                        codec,
                        payload@,
                        before.clients@[j].frames,
                        (width, height),
                        before.fps,
                    ),
            decreases self.clients@.len() - k,
        {
            let client: Client = self.clients[k];
            assert(client == before.clients@[k as int]);
            prefixes.push(stream_prefix(codec, payload, client.frames, (width, height), self.fps));
            self.clients.set(k, Client { id: client.id, frames: client.frames + 1 });
            k += 1;
        }
        Tap::Frames { stripe: f, offset, prefixes }
    }

    /// Drop the clients whose queue was full or whose writer died, and return where they stood,
    /// in the order in which they leave: the last takes the place of the one that does.
    pub fn drop_clients(&mut self, taken: &[bool]) -> (gone: Vec<usize>)
        requires
            taken@.len() == old(self).clients@.len(),
        ensures
            final(self).clients@ == survivors(old(self).clients@, taken@, 0),
            gone@ == leaving(taken@, 0),
            final(self).client_connected == old(self).client_connected,
            final(self).warned_unrecordable == old(self).warned_unrecordable,
            final(self).fps == old(self).fps,
    {
        let ghost before = *self;
        let mut gone: Vec<usize> = Vec::new();
        let mut k: usize = taken.len();
        while k > 0
            invariant
                k <= taken@.len(),
                taken@.len() == before.clients@.len(),
                self.clients@ == survivors(before.clients@, taken@, k as int),
                gone@ == leaving(taken@, k as int),
                self.client_connected == before.client_connected,
                self.warned_unrecordable == before.warned_unrecordable,
                self.fps == before.fps,
            decreases k,
        {
            proof {
                survivors_keep_a_prefix(before.clients@, taken@, k as int);
            }
            k -= 1;
            if !taken[k] {
                let ghost rest = self.clients@;
                let _ = self.clients.swap_remove(k);
                gone.push(k);
                assert(self.clients@ =~= swap_removed(rest, k as int));
            }
        }
        gone
    }
}

/// What a write to a client's socket came to.
#[derive(Clone, Copy, Debug, PartialEq, Eq, Structural)]
pub enum Written {
    /// So many bytes went out.
    Bytes(usize),
    /// The write timed out, or a signal interrupted it.
    Retry,
    /// The socket's buffer is full.
    WouldBlock,
    /// The socket failed.
    Failed,
}

/// What the writer does next.
#[derive(Clone, Copy, Debug, PartialEq, Eq, Structural)]
pub enum WriteStep {
    /// Write the frame from this byte on.
    Write(usize),
    /// Wait a little, then resume.
    Wait,
    /// The whole frame went out.
    Done,
    /// The client was dropped.
    Stopped,
    /// The socket takes no bytes.
    WriteZero,
    /// The socket failed.
    Failed,
}

/// One frame on its way to a recorder's socket, resumed across the soft timeouts a slow reader
/// induces so that a partial unit is never left behind.
#[derive(Clone, Copy, Debug, PartialEq, Eq, Structural)]
pub struct FrameWrite {
    pub written: usize,
    pub len: usize,
}

impl FrameWrite {
    /// What is left to do of a frame, unless the client was dropped.
    pub open spec fn step(self, stop: bool) -> WriteStep {
        if self.written >= self.len {
            WriteStep::Done
        } else if stop {
            WriteStep::Stopped
        } else {
            WriteStep::Write(self.written)
        }
    }

    /// The first thing to do of a frame.
    pub fn start(len: usize, stop: bool) -> (r: (FrameWrite, WriteStep))
        ensures
            r.0 == (FrameWrite { written: 0, len }),
            r.1 == r.0.step(stop),
    {
        let write = FrameWrite { written: 0, len };
        (write, write.resume(stop))
    }

    /// What is left to do of a frame.
    pub fn resume(&self, stop: bool) -> (step: WriteStep)
        ensures
            step == self.step(stop),
    {
        if self.written >= self.len {
            WriteStep::Done
        } else if stop {
            WriteStep::Stopped
        } else {
            WriteStep::Write(self.written)
        }
    }

    /// What to do after a write: go on from where it got, or give the client up. A write never
    /// takes more than it was given.
    pub fn after(&mut self, outcome: Written, stop: bool) -> (step: WriteStep)
        requires
            outcome matches Written::Bytes(n) ==> n <= old(self).len - old(self).written,
        ensures
            final(self).len == old(self).len,
            match outcome {
                Written::Bytes(n) => {
                    &&& final(self).written == old(self).written + n
                    &&& step == if n == 0 {
                        WriteStep::WriteZero
                    } else {
                        final(self).step(stop)
                    }
                },
                Written::Retry => *final(self) == *old(self) && step == final(self).step(stop),
                Written::WouldBlock => *final(self) == *old(self) && step == WriteStep::Wait,
                Written::Failed => *final(self) == *old(self) && step == WriteStep::Failed,
            },
    {
        match outcome {
            Written::Bytes(n) => {
                self.written = self.written + n;
                if n == 0 {
                    WriteStep::WriteZero
                } else {
                    self.resume(stop)
                }
            },
            Written::Retry => self.resume(stop),
            Written::WouldBlock => WriteStep::Wait,
            Written::Failed => WriteStep::Failed,
        }
    }
}

} // verus!
