//! What comes out of a whole Ogg stream: the packets that went in, however they were cut into pages.

use vstd::prelude::*;
use super::ogg;
use super::ogg::{Asked, Front, PacketView, ReaderView};

verus! {

/// One page of a stream.
pub struct Page {
    pub granule: u64,
    pub lacing: Seq<u8>,
    pub body: Seq<u8>,
}

/// A stream made of whole pages.
pub open spec fn whole_pages(s: Seq<u8>) -> bool
    decreases s.len(),
{
    s.len() == 0 || match ogg::front(s) {
        Front::Page { len, .. } => 0 < len <= s.len() && whole_pages(s.skip(len)),
        _ => false,
    }
}

/// The pages of a stream.
pub open spec fn pages(s: Seq<u8>) -> Seq<Page>
    decreases s.len(),
{
    match ogg::front(s) {
        Front::Page { len, granule, lacing, body } => if 0 < len <= s.len() {
            seq![Page { granule, lacing, body }] + pages(s.skip(len))
        } else {
            seq![]
        },
        _ => seq![],
    }
}

/// The lacing values of pages, one page behind another.
pub open spec fn all_lacing(pages: Seq<Page>) -> Seq<u8>
    decreases pages.len(),
{
    if pages.len() == 0 {
        seq![]
    } else {
        pages[0].lacing + all_lacing(pages.drop_first())
    }
}

/// The bodies of pages, one behind another.
pub open spec fn all_bodies(pages: Seq<Page>) -> Seq<u8>
    decreases pages.len(),
{
    if pages.len() == 0 {
        seq![]
    } else {
        pages[0].body + all_bodies(pages.drop_first())
    }
}

/// The packets that pages complete, each with its tag, where a packet was left open before them:
/// the last packet that a page completes carries the page's granule, every other none.
pub open spec fn completed(carry: Seq<u8>, pages: Seq<Page>) -> Seq<PacketView>
    decreases pages.len(),
{
    if pages.len() == 0 {
        seq![]
    } else {
        let (done, open) = ogg::unlaced(carry, pages[0].lacing, pages[0].body);
        ogg::tagged(done, pages[0].granule) + completed(open, pages.drop_first())
    }
}

/// Packets without their tags.
pub open spec fn untagged(packets: Seq<PacketView>) -> Seq<Seq<u8>> {
    packets.map_values(|p: PacketView| p.0)
}

/// What asking for a packet this many times gives.
pub open spec fn answers(r: ReaderView, n: nat) -> Seq<Asked>
    decreases n,
{
    if n == 0 {
        seq![]
    } else {
        let (answer, next) = r.ask();
        seq![answer] + answers(next, (n - 1) as nat)
    }
}

/// The reader once it was asked this many times.
pub open spec fn asked(r: ReaderView, n: nat) -> ReaderView
    decreases n,
{
    if n == 0 {
        r
    } else {
        asked(r.ask().1, (n - 1) as nat)
    }
}

/// The packets that a reader has still to give.
spec fn due(r: ReaderView) -> Seq<PacketView> {
    r.pending + completed(r.carry, pages(r.unread))
}

proof fn front_page_fits(s: Seq<u8>)
    ensures
        ogg::front(s) matches Front::Page { len, lacing, body, .. } ==> 0 < len <= s.len()
            && body.len() == ogg::laced_len(lacing),
{
}

/// Asking gives what is due, first come first.
proof fn asking_gives_the_first(r: ReaderView)
    requires
        whole_pages(r.unread),
    ensures
        whole_pages(r.ask().1.unread),
        r.ask().1.ended == r.ended,
        due(r).len() > 0 ==> r.ask().0 == Asked::Packet(due(r)[0]) && due(r.ask().1) == due(r).skip(
            1,
        ),
        due(r).len() == 0 ==> due(r.ask().1).len() == 0 && r.ask().0 == if r.ended {
            Asked::Ended
        } else {
            Asked::Starved
        },
    decreases r.unread.len(),
{
    if r.pending.len() > 0 {
        assert(due(r.ask().1) =~= due(r).skip(1));
    } else {
        front_page_fits(r.unread);
        match ogg::front(r.unread) {
            Front::Page { len, granule, lacing, body } => {
                let next = r.past_page(len, granule, lacing, body);
                let p = Page { granule, lacing, body };
                let rest = pages(r.unread.skip(len));
                assert(pages(r.unread) == seq![p] + rest);
                assert(pages(r.unread).drop_first() =~= rest);
                assert(due(next) =~= due(r));
                asking_gives_the_first(next);
            },
            _ => {
                assert(r.unread.len() == 0);
                assert(pages(r.unread) =~= seq![]);
                assert(due(r) =~= seq![]);
            },
        }
    }
}

/// A reader of whole pages gives every packet that they complete, in order and with its tag, and
/// then nothing: the stream has ended, or the next page is awaited. The last packet that a page
/// completes carries the page's granule, every other none.
pub proof fn streams_give_every_packet(r: ReaderView, n: nat)
    requires
        whole_pages(r.unread),
        r.pending.len() == 0,
    ensures
        ({
            let packets = completed(r.carry, pages(r.unread));
            &&& n <= packets.len() ==> answers(r, n) == packets.take(n as int).map_values(
                |p: PacketView| Asked::Packet(p),
            )
            &&& asked(r, packets.len()).ask().0 == if r.ended {
                Asked::Ended
            } else {
                Asked::Starved
            }
        }),
{
    let packets = completed(r.carry, pages(r.unread));
    assert(due(r) =~= packets);
    if n <= packets.len() {
        due_is_given(r, n);
    }
    due_is_given(r, packets.len());
    asking_gives_the_first(asked(r, packets.len()));
}

proof fn due_is_given(r: ReaderView, n: nat)
    requires
        whole_pages(r.unread),
        n <= due(r).len(),
    ensures
        answers(r, n) == due(r).take(n as int).map_values(|p: PacketView| Asked::Packet(p)),
        whole_pages(asked(r, n).unread),
        asked(r, n).ended == r.ended,
        due(asked(r, n)) == due(r).skip(n as int),
    decreases n,
{
    if n == 0 {
        assert(answers(r, n) =~= due(r).take(0).map_values(|p: PacketView| Asked::Packet(p)));
        assert(due(r).skip(0) =~= due(r));
    } else {
        let next = r.ask().1;
        asking_gives_the_first(r);
        due_is_given(next, (n - 1) as nat);
        assert(answers(r, n) =~= due(r).take(n as int).map_values(
            |p: PacketView| Asked::Packet(p),
        ));
        assert(due(asked(r, n)) =~= due(r).skip(n as int));
    }
}

proof fn laced_len_first(lacing: Seq<u8>)
    requires
        lacing.len() > 0,
    ensures
        ogg::laced_len(lacing) == lacing[0] + ogg::laced_len(lacing.drop_first()),
    decreases lacing.len(),
{
    if lacing.len() > 1 {
        assert(lacing.drop_last().drop_first() =~= lacing.drop_first().drop_last());
        laced_len_first(lacing.drop_last());
    } else {
        assert(lacing.drop_last() =~= lacing.drop_first());
    }
}

/// Segments can be cut between any two of them: what the first ones leave open is carried into the
/// others.
proof fn segments_join(carry: Seq<u8>, a: Seq<u8>, b: Seq<u8>, body_a: Seq<u8>, body_b: Seq<u8>)
    requires
        body_a.len() == ogg::laced_len(a),
    ensures
        ({
            let (done, open) = ogg::unlaced(carry, a, body_a);
            let (more, last) = ogg::unlaced(open, b, body_b);
            ogg::unlaced(carry, a + b, body_a + body_b) == (done + more, last)
        }),
    decreases a.len(),
{
    let body = body_a + body_b;
    let (done, open) = ogg::unlaced(carry, a, body_a);
    let (more, last) = ogg::unlaced(open, b, body_b);
    if a.len() == 0 {
        assert(a + b =~= b);
        assert(body =~= body_b);
        assert(done + more =~= more);
    } else {
        laced_len_first(a);
        let n = a[0] as int;
        let rest = body_a.subrange(n, body_a.len() as int);
        assert((a + b).drop_first() =~= a.drop_first() + b);
        assert(body.subrange(0, n) =~= body_a.subrange(0, n));
        assert(body.subrange(n, body.len() as int) =~= rest + body_b);
        let joined = carry + body_a.subrange(0, n);
        if n < 255 {
            segments_join(seq![], a.drop_first(), b, rest, body_b);
            let (done2, open2) = ogg::unlaced(seq![], a.drop_first(), rest);
            assert(seq![joined] + (done2 + more) =~= (seq![joined] + done2) + more);
        } else {
            segments_join(joined, a.drop_first(), b, rest, body_b);
        }
    }
}

/// Every page's lacing values add up to its body.
pub open spec fn laced(pages: Seq<Page>) -> bool {
    forall|i: int|
        0 <= i < pages.len() ==> (#[trigger] pages[i]).body.len() == ogg::laced_len(pages[i].lacing)
}

proof fn stream_pages_are_laced(s: Seq<u8>)
    ensures
        laced(pages(s)),
    decreases s.len(),
{
    front_page_fits(s);
    match ogg::front(s) {
        Front::Page { len, granule, lacing, body } => {
            stream_pages_are_laced(s.skip(len));
            let p = Page { granule, lacing, body };
            let rest = pages(s.skip(len));
            assert forall|i: int| 0 <= i < pages(s).len() implies (#[trigger] pages(s)[i]).body.len()
                == ogg::laced_len(pages(s)[i].lacing) by {
                if i > 0 {
                    assert(pages(s)[i] == rest[i - 1]);
                }
            }
        },
        _ => {},
    }
}

/// Where the pages are cut does not matter: the packets are those of all segments one behind
/// another, a packet ending exactly at each segment shorter than 255 bytes, on whichever page.
pub proof fn page_cuts_do_not_matter(s: Seq<u8>, carry: Seq<u8>)
    ensures
        untagged(completed(carry, pages(s))) == ogg::unlaced(
            carry,
            all_lacing(pages(s)),
            all_bodies(pages(s)),
        ).0,
{
    stream_pages_are_laced(s);
    cuts_do_not_matter(carry, pages(s));
}

proof fn cuts_do_not_matter(carry: Seq<u8>, pages: Seq<Page>)
    requires
        laced(pages),
    ensures
        untagged(completed(carry, pages)) == ogg::unlaced(
            carry,
            all_lacing(pages),
            all_bodies(pages),
        ).0,
        ogg::laced_len(all_lacing(pages)) == all_bodies(pages).len(),
    decreases pages.len(),
{
    if pages.len() == 0 {
        assert(untagged(completed(carry, pages)) =~= seq![]);
    } else {
        let rest = pages.drop_first();
        assert(forall|i: int| 0 <= i < rest.len() ==> rest[i] == pages[i + 1]);
        let (done, open) = ogg::unlaced(carry, pages[0].lacing, pages[0].body);
        assert(pages[0].body.len() == ogg::laced_len(pages[0].lacing));
        cuts_do_not_matter(open, rest);
        segments_join(
            carry,
            pages[0].lacing,
            all_lacing(rest),
            pages[0].body,
            all_bodies(rest),
        );
        lengths_join(pages[0].lacing, all_lacing(rest));
        assert(untagged(completed(carry, pages)) =~= done + untagged(completed(open, rest)));
    }
}

proof fn lengths_join(a: Seq<u8>, b: Seq<u8>)
    ensures
        ogg::laced_len(a + b) == ogg::laced_len(a) + ogg::laced_len(b),
    decreases b.len(),
{
    if b.len() == 0 {
        assert(a + b =~= a);
    } else {
        assert((a + b).drop_last() =~= a + b.drop_last());
        lengths_join(a, b.drop_last());
    }
}

/// Nothing is lost and nothing added: the packets of a stream, one behind another, and the packet it
/// leaves open are the bodies of its pages, one behind another. The packet left open is made of full
/// segments alone.
pub proof fn packets_are_the_bodies(s: Seq<u8>)
    ensures
        ({
            let open = ogg::unlaced(seq![], all_lacing(pages(s)), all_bodies(pages(s))).1;
            &&& ogg::joined(untagged(completed(seq![], pages(s)))) + open == all_bodies(pages(s))
            &&& open.len() == 255 * full_tail(all_lacing(pages(s)))
        }),
{
    page_cuts_do_not_matter(s, seq![]);
    stream_pages_are_laced(s);
    cuts_do_not_matter(seq![], pages(s));
    segments_are_kept(seq![], all_lacing(pages(s)), all_bodies(pages(s)));
    tail_stays_open(seq![], all_lacing(pages(s)), all_bodies(pages(s)));
    let whole = all_bodies(pages(s));
    assert(Seq::<u8>::empty() + whole =~= whole);
}

/// The full segments behind the last short one.
pub open spec fn full_tail(lacing: Seq<u8>) -> nat
    decreases lacing.len(),
{
    if lacing.len() == 0 || lacing.last() < 255 {
        0
    } else {
        1 + full_tail(lacing.drop_last())
    }
}

/// Some segment closes a packet.
spec fn closes(lacing: Seq<u8>) -> bool {
    exists|i: int| 0 <= i < lacing.len() && #[trigger] lacing[i] < 255
}

proof fn tail_of_first(lacing: Seq<u8>)
    requires
        lacing.len() > 0,
    ensures
        closes(lacing.drop_first()) ==> full_tail(lacing) == full_tail(lacing.drop_first()),
        !closes(lacing.drop_first()) ==> full_tail(lacing.drop_first()) == lacing.len() - 1,
        !closes(lacing.drop_first()) && lacing[0] < 255 ==> full_tail(lacing) == lacing.len() - 1,
        !closes(lacing) ==> full_tail(lacing) == lacing.len(),
    decreases lacing.len(),
{
    let rest = lacing.drop_first();
    if lacing.len() == 1 {
        if lacing[0] == 255 {
            assert(full_tail(lacing.drop_last()) == 0);
        } else {
            assert(lacing[0] < 255);
        }
    } else {
        let shorter = lacing.drop_last();
        assert(rest.drop_last() =~= shorter.drop_first());
        tail_of_first(shorter);
        assert(rest.last() == lacing.last());
        if closes(rest) {
            let i = choose|i: int| 0 <= i < rest.len() && #[trigger] rest[i] < 255;
            if i < rest.len() - 1 {
                assert(shorter.drop_first()[i] < 255);
            }
        } else {
            assert(rest[rest.len() - 1] == 255);
            if closes(shorter.drop_first()) {
                let i = choose|i: int|
                    0 <= i < shorter.drop_first().len() && #[trigger] shorter.drop_first()[i] < 255;
                assert(rest[i] < 255);
            }
        }
        if !closes(lacing) {
            assert(lacing[lacing.len() - 1] == 255);
            if closes(shorter) {
                let i = choose|i: int| 0 <= i < shorter.len() && #[trigger] shorter[i] < 255;
                assert(lacing[i] < 255);
            }
            if closes(rest) {
                let i = choose|i: int| 0 <= i < rest.len() && #[trigger] rest[i] < 255;
                assert(lacing[i + 1] < 255);
            }
        }
    }
}

proof fn tail_stays_open(carry: Seq<u8>, lacing: Seq<u8>, body: Seq<u8>)
    requires
        body.len() == ogg::laced_len(lacing),
    ensures
        ogg::unlaced(carry, lacing, body).1.len() == 255 * full_tail(lacing) + if closes(lacing) {
            0
        } else {
            carry.len() as int
        },
    decreases lacing.len(),
{
    if lacing.len() > 0 {
        laced_len_first(lacing);
        tail_of_first(lacing);
        let n = lacing[0] as int;
        let rest = lacing.drop_first();
        let left = body.subrange(n, body.len() as int);
        if closes(rest) {
            let i = choose|i: int| 0 <= i < rest.len() && #[trigger] rest[i] < 255;
            assert(lacing[i + 1] < 255);
        }
        if n < 255 {
            assert(closes(lacing)) by {
                assert(lacing[0] < 255);
            }
            tail_stays_open(seq![], rest, left);
        } else {
            tail_stays_open(carry + body.subrange(0, n), rest, left);
            if closes(lacing) {
                let i = choose|i: int| 0 <= i < lacing.len() && #[trigger] lacing[i] < 255;
                assert(i > 0 && rest[i - 1] < 255);
            }
        }
    }
}

proof fn segments_are_kept(carry: Seq<u8>, lacing: Seq<u8>, body: Seq<u8>)
    requires
        body.len() == ogg::laced_len(lacing),
    ensures
        ogg::joined(ogg::unlaced(carry, lacing, body).0) + ogg::unlaced(carry, lacing, body).1
            == carry + body,
    decreases lacing.len(),
{
    let (done, open) = ogg::unlaced(carry, lacing, body);
    if lacing.len() == 0 {
        assert(ogg::joined(done) + open =~= carry + body);
    } else {
        laced_len_first(lacing);
        let n = lacing[0] as int;
        let segment = body.subrange(0, n);
        let rest = body.subrange(n, body.len() as int);
        assert(segment + rest =~= body);
        if n < 255 {
            let (done2, open2) = ogg::unlaced(seq![], lacing.drop_first(), rest);
            segments_are_kept(seq![], lacing.drop_first(), rest);
            assert(done.drop_first() =~= done2);
            assert(Seq::<u8>::empty() + rest =~= rest);
            assert(ogg::joined(done) + open =~= (carry + segment) + (ogg::joined(done2) + open2));
            assert((carry + segment) + rest =~= carry + body);
        } else {
            segments_are_kept(carry + segment, lacing.drop_first(), rest);
            assert((carry + segment) + rest =~= carry + body);
        }
    }
}

} // verus!
