//! H.264 elementary streams: splitting an Annex-B stream into NAL units.

use vstd::prelude::*;
use vstd::slice::slice_subrange;

verus! {

/// A three-byte start code `00 00 01` stands at `i`.
pub open spec fn is_code(data: Seq<u8>, i: int) -> bool {
    0 <= i && i + 3 <= data.len() && data[i] == 0 && data[i + 1] == 0 && data[i + 2] == 1
}

/// The first start code at or after `i`.
pub open spec fn next_code(data: Seq<u8>, i: int) -> Option<int>
    decreases data.len() - i,
{
    if i + 3 > data.len() {
        None
    } else if is_code(data, i) {
        Some(i)
    } else {
        next_code(data, i + 1)
    }
}

/// Where the start code at `i` begins once a leading zero byte is counted to it.
pub open spec fn code_start(data: Seq<u8>, i: int) -> int {
    if i > 0 && data[i - 1] == 0 {
        i - 1
    } else {
        i
    }
}

/// A run of bytes as a list: itself, or nothing when it is empty.
pub open spec fn nonempty(nal: Seq<u8>) -> Seq<Seq<u8>> {
    if nal.len() > 0 {
        seq![nal]
    } else {
        seq![]
    }
}

/// The NAL payloads of a stream whose current payload opens at `start`: each runs to the next
/// start code or to the end, and an empty one is left out.
pub open spec fn nals_from(data: Seq<u8>, start: int) -> Seq<Seq<u8>>
    decreases data.len() - start,
    when 0 <= start <= data.len()
    via nals_from_decreases
{
    match next_code(data, start) {
        None => nonempty(data.subrange(start, data.len() as int)),
        Some(i) => nonempty(data.subrange(start, code_start(data, i))) + nals_from(data, i + 3),
    }
}

#[via_fn]
proof fn nals_from_decreases(data: Seq<u8>, start: int) {
    next_code_bounds(data, start);
}

/// The NAL payloads of an Annex-B stream, start codes removed.
pub open spec fn annexb_nals(data: Seq<u8>) -> Seq<Seq<u8>> {
    match next_code(data, 0) {
        None => seq![],
        Some(i) => nals_from(data, i + 3),
    }
}

/// The bytes behind each slice.
pub open spec fn contents(v: Seq<&[u8]>) -> Seq<Seq<u8>> {
    v.map_values(|s: &[u8]| s@)
}

proof fn next_code_bounds(data: Seq<u8>, i: int)
    ensures
        next_code(data, i) matches Some(k) ==> i <= k && k + 3 <= data.len() && (i >= 0 ==> is_code(
            data,
            k,
        )) && forall|j: int| i <= j < k ==> !#[trigger] is_code(data, j),
        next_code(data, i) is None ==> forall|j: int| i <= j ==> !#[trigger] is_code(data, j),
    decreases data.len() - i,
{
    if i + 3 > data.len() {
    } else if is_code(data, i) {
    } else {
        next_code_bounds(data, i + 1);
    }
}

/// Skipping positions where no start code stands does not change which one comes next.
proof fn next_code_skip(data: Seq<u8>, i: int, j: int)
    requires
        i <= j,
        forall|k: int| i <= k < j ==> !#[trigger] is_code(data, k),
    ensures
        next_code(data, i) == next_code(data, j),
    decreases j - i,
{
    if i < j {
        assert(!is_code(data, i));
        if i + 3 > data.len() {
            assert(next_code(data, j) is None);
        } else {
            next_code_skip(data, i + 1, j);
        }
    }
}

/// A start code's position is the one found from there.
proof fn next_code_at(data: Seq<u8>, k: int)
    requires
        is_code(data, k),
    ensures
        next_code(data, k) == Some(k),
{
}

/// Split an Annex-B elementary stream into NAL payloads (start codes removed, emulation
/// prevention bytes kept).
pub fn split_annexb(data: &[u8]) -> (nals: Vec<&[u8]>)
    ensures
        contents(nals@) == annexb_nals(data@),
{
    let mut nals: Vec<&[u8]> = Vec::new();
    let mut i: usize = 0;
    let mut nal_start: Option<usize> = None;
    let n: usize = data.len();
    assert(contents(nals@) =~= seq![]);
    while n >= 3 && i <= n - 3
        invariant
            n == data.len(),
            i <= n,
            match nal_start {
                None => contents(nals@) == Seq::<Seq<u8>>::empty() && annexb_nals(data@) == (
                match next_code(data@, i as int) {
                    None => seq![],
                    Some(k) => nals_from(data@, k + 3),
                }),
                Some(s) => s <= i && s >= 3 && data@[s - 1] == 1 && next_code(data@, s as int)
                    == next_code(data@, i as int) && annexb_nals(data@) == contents(nals@)
                    + nals_from(data@, s as int),
            },
        decreases n - i,
    {
        proof {
            next_code_bounds(data@, i as int);
        }
        if data[i] == 0 && data[i + 1] == 0 && data[i + 2] == 1 {
            assert(is_code(data@, i as int));
            proof {
                next_code_at(data@, i as int);
            }
            let code_at: usize = if i > 0 && data[i - 1] == 0 {
                i - 1
            } else {
                i
            };
            assert(code_at == code_start(data@, i as int));
            if let Some(s) = nal_start {
                assert(code_at >= s);
                let ghost before = contents(nals@);
                if code_at > s {
                    let nal = slice_subrange(data, s, code_at);
                    nals.push(nal);
                    assert(contents(nals@) =~= before.push(data@.subrange(s as int, code_at as int)));
                }
                assert(contents(nals@) =~= before + nonempty(
                    data@.subrange(s as int, code_at as int),
                ));
                assert(contents(nals@) + nals_from(data@, i + 3) =~= before + nals_from(
                    data@,
                    s as int,
                ));
            } else {
                assert(contents(nals@) + nals_from(data@, i + 3) =~= nals_from(data@, i + 3));
            }
            i += 3;
            nal_start = Some(i);
        } else if data[i + 2] == 0 {
            // A zero at i+2 can begin the next start code; only advance one byte.
            assert(!is_code(data@, i as int));
            proof {
                next_code_skip(data@, i as int, i + 1);
            }
            i += 1;
        } else {
            assert(!is_code(data@, i as int));
            assert(!is_code(data@, i + 1));
            assert(!is_code(data@, i + 2));
            proof {
                next_code_skip(data@, i as int, i + 3);
            }
            i += 3;
        }
    }
    assert(next_code(data@, i as int) is None);
    if let Some(s) = nal_start {
        let ghost before = contents(nals@);
        if n > s {
            let nal = slice_subrange(data, s, n);
            nals.push(nal);
            assert(contents(nals@) =~= before.push(data@.subrange(s as int, n as int)));
        }
        assert(contents(nals@) =~= before + nals_from(data@, s as int));
    }
    nals
}

/// A start code: `00 00 01`, with one more leading zero when long.
pub open spec fn start_code(long: bool) -> Seq<u8> {
    if long {
        seq![0u8, 0, 0, 1]
    } else {
        seq![0u8, 0, 1]
    }
}

/// NAL units framed as an Annex-B stream, each behind a start code of either length.
pub open spec fn framed(nals: Seq<(bool, Seq<u8>)>) -> Seq<u8>
    decreases nals.len(),
{
    if nals.len() == 0 {
        seq![]
    } else {
        start_code(nals[0].0) + nals[0].1 + framed(nals.drop_first())
    }
}

/// A payload that framing keeps apart from the codes around it: not empty, no start code
/// inside, no trailing zero byte (one would be counted to the start code behind it).
pub open spec fn is_payload(nal: Seq<u8>) -> bool {
    nal.len() > 0 && nal.last() != 0 && forall|i: int| !is_code(nal, i)
}

/// Splitting gives back exactly the payloads that were framed, in order.
pub proof fn split_undoes_framing(nals: Seq<(bool, Seq<u8>)>)
    requires
        forall|i: int| 0 <= i < nals.len() ==> is_payload(#[trigger] nals[i].1),
    ensures
        annexb_nals(framed(nals)) == nals.map_values(|n: (bool, Seq<u8>)| n.1),
{
    let data = framed(nals);
    if nals.len() == 0 {
        assert(annexb_nals(data) =~= nals.map_values(|n: (bool, Seq<u8>)| n.1));
    } else {
        let code = start_code(nals[0].0);
        let rest = nals.drop_first();
        let at: int = if nals[0].0 {
            1
        } else {
            0
        };
        assert(data =~= code + (nals[0].1 + framed(rest)));
        assert(is_code(data, at));
        if nals[0].0 {
            assert(data[0] == 0 && data[1] == 0 && data[2] == 0);
            assert(!is_code(data, 0));
        }
        next_code_skip(data, 0, at);
        next_code_at(data, at);
        assert(data =~= code + nals[0].1 + framed(rest));
        split_behind_code(code, nals[0].1, rest);
        assert(nals.map_values(|n: (bool, Seq<u8>)| n.1) =~= seq![nals[0].1] + rest.map_values(
            |n: (bool, Seq<u8>)| n.1,
        ));
    }
}

proof fn split_behind_code(pre: Seq<u8>, nal: Seq<u8>, rest: Seq<(bool, Seq<u8>)>)
    requires
        pre.len() > 0,
        pre.last() == 1,
        is_payload(nal),
        forall|i: int| 0 <= i < rest.len() ==> is_payload(#[trigger] rest[i].1),
    ensures
        nals_from(pre + nal + framed(rest), pre.len() as int) == seq![nal] + rest.map_values(
            |n: (bool, Seq<u8>)| n.1,
        ),
    decreases rest.len(),
{
    let tail = framed(rest);
    let data = pre + nal + tail;
    let start = pre.len() as int;
    let end = start + nal.len();
    assert(forall|k: int| 0 <= k < nal.len() ==> data[start + k] == #[trigger] nal[k]);
    if rest.len() == 0 {
        assert(tail =~= seq![]);
        assert forall|k: int| start <= k implies !#[trigger] is_code(data, k) by {
            if is_code(data, k) {
                assert(data[k] == nal[k - start] && data[k + 1] == nal[k + 1 - start] && data[k + 2]
                    == nal[k + 2 - start]);
                assert(is_code(nal, k - start));
            }
        }
        next_code_bounds(data, start);
        assert(next_code(data, start) is None);
        assert(data.subrange(start, data.len() as int) =~= nal);
        assert(nals_from(data, start) =~= seq![nal] + rest.map_values(
            |n: (bool, Seq<u8>)| n.1,
        ));
    } else {
        let long = rest[0].0;
        let code = start_code(long);
        let more = rest.drop_first();
        let at = if long {
            end + 1
        } else {
            end
        };
        assert(tail =~= code + rest[0].1 + framed(more));
        assert(forall|k: int| 0 <= k < code.len() ==> data[end + k] == #[trigger] code[k]);
        assert(data[end] == code[0] && data[end + 1] == code[1] && data[end + 2] == code[2]);
        if long {
            assert(data[end + 3] == code[3]);
        }
        assert(is_code(data, at));
        assert forall|k: int| start <= k < at implies !#[trigger] is_code(data, k) by {
            if is_code(data, k) {
                if k + 2 < end {
                    assert(data[k] == nal[k - start] && data[k + 1] == nal[k + 1 - start]
                        && data[k + 2] == nal[k + 2 - start]);
                    assert(is_code(nal, k - start));
                } else if k < end {
                    assert(data[end - 1] == nal[nal.len() - 1]);
                } else {
                    assert(k == end && long);
                }
            }
        }
        next_code_skip(data, start, at);
        next_code_at(data, at);
        assert(data[end - 1] == nal[nal.len() - 1]);
        assert(code_start(data, at) == end);
        assert(data.subrange(start, end) =~= nal);
        let pre2 = pre + nal + code;
        assert(data =~= pre2 + rest[0].1 + framed(more));
        assert(pre2.len() == at + 3);
        assert(pre2.last() == 1);
        assert forall|i: int| 0 <= i < more.len() implies is_payload(#[trigger] more[i].1) by {
            assert(more[i] == rest[i + 1]);
        }
        split_behind_code(pre2, rest[0].1, more);
        assert(rest.map_values(|n: (bool, Seq<u8>)| n.1) =~= seq![rest[0].1] + more.map_values(
            |n: (bool, Seq<u8>)| n.1,
        ));
        assert(nals_from(data, start) =~= seq![nal] + rest.map_values(
            |n: (bool, Seq<u8>)| n.1,
        ));
    }
}

/// Splitting never yields an empty payload, nor one with a start code inside.
pub proof fn split_payloads_hold_no_framing(data: Seq<u8>, i: int)
    requires
        0 <= i < annexb_nals(data).len(),
    ensures
        annexb_nals(data)[i].len() > 0,
        forall|k: int| !is_code(annexb_nals(data)[i], k),
{
    next_code_bounds(data, 0);
    match next_code(data, 0) {
        None => {},
        Some(k) => {
            payloads_hold_no_framing(data, k + 3, i);
        },
    }
}

proof fn payloads_hold_no_framing(data: Seq<u8>, start: int, i: int)
    requires
        0 < start <= data.len(),
        data[start - 1] == 1,
        0 <= i < nals_from(data, start).len(),
    ensures
        nals_from(data, start)[i].len() > 0,
        forall|k: int| !is_code(nals_from(data, start)[i], k),
    decreases data.len() - start,
{
    next_code_bounds(data, start);
    match next_code(data, start) {
        None => {
            let nal = data.subrange(start, data.len() as int);
            assert forall|k: int| !is_code(nal, k) by {
                if is_code(nal, k) {
                    assert(is_code(data, start + k));
                }
            }
        },
        Some(at) => {
            let nal = data.subrange(start, code_start(data, at));
            let head = nonempty(nal);
            assert forall|k: int| !is_code(nal, k) by {
                if is_code(nal, k) {
                    assert(is_code(data, start + k));
                }
            }
            if i >= head.len() {
                payloads_hold_no_framing(data, at + 3, i - head.len());
                assert(nals_from(data, start)[i] == nals_from(data, at + 3)[i - head.len()]);
            } else {
                assert(nals_from(data, start)[i] == nal);
            }
        },
    }
}

} // verus!
