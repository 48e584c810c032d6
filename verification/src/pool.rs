//! The handoff of captured frames from the compositor thread to the encode thread.
//!
//! The pool has a single publish slot and drops nothing. The producer also dispatches clients and
//! input, so it must never block: a buffer is handed out only while the publish slot is empty, so
//! publishing cannot block, and a saturated encoder throttles capture by skipped ticks. Every
//! published frame is encoded, in order, which keeps the reference chain contiguous.

use vstd::prelude::*;
use vstd::multiset::Multiset;

verus! {

/// A rectangle of pixels.
#[derive(Clone, Copy, Debug, PartialEq, Eq, Structural)]
pub struct Rect {
    pub x: i32,
    pub y: i32,
    pub w: i32,
    pub h: i32,
}

/// One captured frame in flight to the encode thread: the pixels and the inputs of the encode
/// decision. The keyframe request travels separately.
#[derive(Debug)]
pub struct WlFrame {
    /// The buffer's own number; it travels with the buffer.
    pub id: usize,
    pub buf: Vec<u8>,
    pub frame_id: u16,
    pub damage: Vec<Rect>,
    pub is_animated: bool,
}

/// Two buffers: one being encoded while the other is filled. A deeper pool would only add
/// latency.
pub const WL_POOL_SURFACES: usize = 2;

/// Milliseconds the encode thread waits at most before it looks again.
pub const WL_POOL_WAKE_QUANTUM_MS: u64 = 20;

/// What the encode thread finds in the pool.
#[derive(Debug)]
pub enum Taken {
    /// A published frame.
    Frame(WlFrame),
    /// No frame, and the pool was shut down.
    Stopped,
    /// No frame yet.
    Wait,
}

/// The pool: its free buffers, the publish slot, and whether it was shut down.
#[derive(Debug)]
pub struct WlFramePool {
    pub free: Vec<(usize, Vec<u8>)>,
    pub slot: Option<WlFrame>,
    pub stop: bool,
}

/// The numbers of a list of buffers.
pub open spec fn numbers(free: Seq<(usize, Vec<u8>)>) -> Multiset<usize> {
    free.map(|_i: int, b: (usize, Vec<u8>)| b.0).to_multiset()
}

impl WlFramePool {
    /// The buffers that the pool holds, by number.
    pub open spec fn held(&self) -> Multiset<usize> {
        match self.slot {
            Some(f) => numbers(self.free@).insert(f.id),
            None => numbers(self.free@),
        }
    }

    /// Allocate all `n` buffers up front, each of `buf_len` zero bytes, so that the steady state
    /// hands buffers around without allocating.
    pub fn new(n: usize, buf_len: usize) -> (p: WlFramePool)
        ensures
            p.free@.len() == n,
            forall|i: int|
                0 <= i < n ==> (#[trigger] p.free@[i]).0 == i && p.free@[i].1@ == Seq::new(
                    buf_len as nat,
                    |_j: int| 0u8,
                ),
            p.slot is None,
            !p.stop,
    {
        let mut free: Vec<(usize, Vec<u8>)> = Vec::new();
        let mut i: usize = 0;
        while i < n
            invariant
                i <= n,
                free@.len() == i,
                forall|j: int|
                    0 <= j < i ==> (#[trigger] free@[j]).0 == j && free@[j].1@ == Seq::new(
                        buf_len as nat,
                        |_k: int| 0u8,
                    ),
            decreases n - i,
        {
            let buf: Vec<u8> = vec![0u8; buf_len];
            assert(buf@ =~= Seq::new(buf_len as nat, |_k: int| 0u8));
            free.push((i, buf));
            i += 1;
        }
        WlFramePool { free, slot: None, stop: false }
    }

    /// Reserve a buffer for the next frame, without blocking. `None` means that the encoder is
    /// still behind: the slot is full, or every buffer is in flight.
    pub fn try_begin(&mut self) -> (r: Option<(usize, Vec<u8>)>)
        ensures
            r is Some <==> old(self).slot is None && old(self).free@.len() > 0,
            match r {
                Some(b) => {
                    &&& b == old(self).free@.last()
                    &&& final(self).free@ == old(self).free@.drop_last()
                    &&& final(self).held().insert(b.0) =~= old(self).held()
                },
                None => final(self).free@ == old(self).free@ && final(self).held() == old(
                    self,
                ).held(),
            },
            final(self).slot == slot_after(old(self).slot, PoolOp::Begin),
            final(self).stop == old(self).stop,
    {
        if self.slot.is_some() {
            return None;
        }
        let ghost before = self.free@;
        let r = self.free.pop();
        proof {
            if r is Some {
                let b = r->0;
                assert(self.free@ =~= before.drop_last());
                assert(b == before.last());
                numbers_of_push(before.drop_last(), b);
                assert(before.drop_last().push(b) =~= before);
            }
        }
        r
    }

    /// Hand a filled buffer to the encode thread. A reservation found the slot empty, and only
    /// the consumer has touched it since, so there is room.
    pub fn publish(&mut self, frame: WlFrame)
        requires
            old(self).slot is None,
        ensures
            final(self).slot == slot_after(old(self).slot, PoolOp::Publish(frame)),
            final(self).free == old(self).free,
            final(self).stop == old(self).stop,
            final(self).held() =~= old(self).held().insert(frame.id),
    {
        self.slot = Some(frame);
    }

    /// Return an unused reservation.
    pub fn cancel(&mut self, id: usize, buf: Vec<u8>)
        ensures
            final(self).free@ == old(self).free@.push((id, buf)),
            final(self).slot == slot_after(old(self).slot, PoolOp::Return(id, buf)),
            final(self).stop == old(self).stop,
            final(self).held() =~= old(self).held().insert(id),
    {
        proof {
            numbers_of_push(self.free@, (id, buf));
        }
        self.free.push((id, buf));
    }

    /// Take the published frame; without one, say whether there is anything to wait for.
    pub fn take(&mut self) -> (r: Taken)
        ensures
            r == match old(self).slot {
                Some(f) => Taken::Frame(f),
                None => if old(self).stop {
                    Taken::Stopped
                } else {
                    Taken::Wait
                },
            },
            final(self).slot == slot_after(old(self).slot, PoolOp::Take),
            final(self).free == old(self).free,
            final(self).stop == old(self).stop,
            match r {
                Taken::Frame(f) => final(self).held().insert(f.id) =~= old(self).held(),
                _ => final(self).held() == old(self).held(),
            },
    {
        match self.slot.take() {
            Some(f) => Taken::Frame(f),
            None => if self.stop {
                Taken::Stopped
            } else {
                Taken::Wait
            },
        }
    }

    /// Return an encoded frame's buffer for another capture.
    pub fn recycle(&mut self, id: usize, buf: Vec<u8>)
        ensures
            final(self).free@ == old(self).free@.push((id, buf)),
            final(self).slot == slot_after(old(self).slot, PoolOp::Return(id, buf)),
            final(self).stop == old(self).stop,
            final(self).held() =~= old(self).held().insert(id),
    {
        proof {
            numbers_of_push(self.free@, (id, buf));
        }
        self.free.push((id, buf));
    }

    /// Nothing more will be published.
    pub fn shutdown(&mut self)
        ensures
            final(self).stop,
            final(self).slot == slot_after(old(self).slot, PoolOp::Shutdown),
            final(self).free == old(self).free,
    {
        self.stop = true;
    }
}

proof fn numbers_of_push(free: Seq<(usize, Vec<u8>)>, b: (usize, Vec<u8>))
    ensures
        numbers(free.push(b)) =~= numbers(free).insert(b.0),
{
    broadcast use vstd::seq_lib::group_to_multiset_ensures;

    let ids = free.map(|_i: int, b: (usize, Vec<u8>)| b.0);
    assert(free.push(b).map(|_i: int, b: (usize, Vec<u8>)| b.0) =~= ids.push(b.0));
}

/// What one side does to the pool.
pub enum PoolOp {
    /// The producer reserves a buffer.
    Begin,
    /// The producer publishes a frame.
    Publish(WlFrame),
    /// A buffer comes back, unused or encoded.
    Return(usize, Vec<u8>),
    /// The encode thread takes a frame.
    Take,
    /// The pool is shut down.
    Shutdown,
}

/// What was published to a pool and taken from it, and what stands in its slot.
pub struct Flow {
    pub published: Seq<WlFrame>,
    pub taken: Seq<WlFrame>,
    pub slot: Option<WlFrame>,
}

/// What stands in the slot after an operation: it is filled by publishing and emptied by taking.
pub open spec fn slot_after(slot: Option<WlFrame>, op: PoolOp) -> Option<WlFrame> {
    match op {
        PoolOp::Publish(frame) => Some(frame),
        PoolOp::Take => None,
        _ => slot,
    }
}

/// One operation on the pool.
pub open spec fn flowed(f: Flow, op: PoolOp) -> Flow {
    Flow {
        published: match op {
            PoolOp::Publish(frame) => f.published.push(frame),
            _ => f.published,
        },
        taken: if op is Take && f.slot is Some {
            f.taken.push(f.slot->0)
        } else {
            f.taken
        },
        slot: slot_after(f.slot, op),
    }
}

/// A frame is published into an empty slot only.
pub open spec fn admitted(f: Flow, op: PoolOp) -> bool {
    op is Publish ==> f.slot is None
}

/// What a run of operations leaves.
pub open spec fn flow(ops: Seq<PoolOp>) -> Flow
    decreases ops.len(),
{
    if ops.len() == 0 {
        Flow { published: Seq::empty(), taken: Seq::empty(), slot: None }
    } else {
        flowed(flow(ops.drop_last()), ops.last())
    }
}

/// Every operation of a run was admitted when it came.
pub open spec fn orderly(ops: Seq<PoolOp>) -> bool
    decreases ops.len(),
{
    ops.len() == 0 || (orderly(ops.drop_last()) && admitted(flow(ops.drop_last()), ops.last()))
}

/// Every published frame is taken exactly once and in order: at any time the frames published
/// are those taken, then the one that stands in the slot.
pub proof fn frames_flow_in_order(ops: Seq<PoolOp>)
    requires
        orderly(ops),
    ensures
        flow(ops).published == flow(ops).taken + match flow(ops).slot {
            Some(frame) => seq![frame],
            None => Seq::empty(),
        },
    decreases ops.len(),
{
    if ops.len() > 0 {
        frames_flow_in_order(ops.drop_last());
        let before = flow(ops.drop_last());
        let after = flow(ops);
        match ops.last() {
            PoolOp::Publish(frame) => {
                assert(after.published =~= after.taken + seq![frame]);
            },
            PoolOp::Take => {
                if let Some(frame) = before.slot {
                    assert(after.published =~= before.taken + seq![frame]);
                    assert(after.taken =~= before.taken + seq![frame]);
                }
                assert(after.published =~= after.taken + Seq::<WlFrame>::empty());
            },
            _ => {},
        }
    } else {
        assert(flow(ops).published =~= flow(ops).taken + Seq::<WlFrame>::empty());
    }
}

/// A buffer that goes the whole way round, reserved, published, taken and recycled, leaves the
/// pool holding what it held.
pub proof fn buffers_are_conserved(
    idle: WlFramePool,
    begun: WlFramePool,
    published: WlFramePool,
    taken: WlFramePool,
    recycled: WlFramePool,
    id: usize,
)
    requires
        begun.held().insert(id) == idle.held(),
        published.held() == begun.held().insert(id),
        taken.held().insert(id) == published.held(),
        recycled.held() == taken.held().insert(id),
    ensures
        recycled.held() == idle.held(),
{
}

/// Once a buffer is reserved the slot stays empty until the producer publishes: taking and
/// returning buffers do not fill it.
pub proof fn a_reservation_keeps_its_slot(f: Flow, op: PoolOp)
    requires
        f.slot is None,
        !(op is Publish),
    ensures
        flowed(f, op).slot is None,
{
}

} // verus!
