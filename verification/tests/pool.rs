use pixelflux::pool::{Taken, WlFrame, WlFramePool};

fn frame(id: usize, buf: Vec<u8>, n: u16) -> WlFrame {
    WlFrame {
        id,
        buf,
        frame_id: n,
        damage: Vec::new(),
        is_animated: false,
    }
}

fn taken(p: &mut WlFramePool) -> Option<WlFrame> {
    match p.take() {
        Taken::Frame(f) => Some(f),
        _ => None,
    }
}

#[test]
fn begin_gated_on_slot_and_free_list() {
    let mut p = WlFramePool::new(2, 16);
    let (a, abuf) = p.try_begin().expect("first buffer");
    let (b, bbuf) = p.try_begin().expect("second buffer");
    assert_ne!(a, b);
    assert!(p.try_begin().is_none(), "free list exhausted");
    p.publish(frame(a, abuf, 0));
    p.cancel(b, bbuf);
    assert!(p.try_begin().is_none(), "slot occupied blocks begin");
    let f = taken(&mut p).expect("published frame");
    assert_eq!(f.frame_id, 0);
    p.recycle(f.id, f.buf);
    assert!(p.try_begin().is_some(), "drained slot re-enables begin");
}

/// Every published frame is taken once and in the order of publishing.
#[test]
fn frames_flow_in_order_and_buffers_recycle() {
    let mut p = WlFramePool::new(2, 4);
    let mut seen = Vec::new();
    let mut published = 0u16;
    while published < 50 {
        if let Some((id, buf)) = p.try_begin() {
            p.publish(frame(id, buf, published));
            published += 1;
        } else {
            let f = taken(&mut p).unwrap();
            seen.push(f.frame_id);
            p.recycle(f.id, f.buf);
        }
    }
    while let Some(f) = taken(&mut p) {
        seen.push(f.frame_id);
        p.recycle(f.id, f.buf);
    }
    p.shutdown();
    assert!(matches!(p.take(), Taken::Stopped));
    assert_eq!(seen, (0..50).collect::<Vec<u16>>(), "every frame, in order");
}

#[test]
fn shutdown_unblocks_take() {
    let mut p = WlFramePool::new(1, 4);
    assert!(matches!(p.take(), Taken::Wait));
    p.shutdown();
    assert!(matches!(p.take(), Taken::Stopped), "take returns nothing on shutdown");
}

#[test]
fn cancel_returns_buffer_for_reuse() {
    let mut p = WlFramePool::new(1, 8);
    let (id, buf) = p.try_begin().expect("buffer");
    assert!(p.try_begin().is_none());
    p.cancel(id, buf);
    assert!(p.try_begin().is_some(), "cancelled reservation reusable");
}

/// Buffers are handed out at their full length and none is lost.
#[test]
fn buffers_keep_their_length_and_number() {
    let mut p = WlFramePool::new(3, 12);
    assert_eq!(p.free.len(), 3);
    let (id, buf) = p.try_begin().unwrap();
    assert_eq!(buf.len(), 12);
    p.publish(frame(id, buf, 1));
    let f = taken(&mut p).unwrap();
    p.recycle(f.id, f.buf);
    assert_eq!(p.free.len(), 3);
}
