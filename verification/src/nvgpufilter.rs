//! Filter on the NVIDIA driver's GPU enumeration, so that a container handed only some of the
//! host's GPUs can still open an NVENC session.
//!
//! On some drivers the encode libraries enumerate every host GPU through a control request and
//! try to initialise each one, also those the container cannot reach, and the session then fails
//! to open though a usable GPU is there. The filter strips the unreachable GPUs out of the
//! enumeration's answer before the libraries act on it. It repoints `ioctl` in those libraries
//! only, and it matters only while at least one host GPU is hidden: everywhere else the rule that
//! only a strict subset is ever dropped makes it do nothing.
//!
//! What is decided here is which answers are rewritten, how, and which table entries of a loaded
//! library bind `ioctl`; the memory itself is touched by the caller.

use vstd::prelude::*;
use vstd::slice::slice_subrange;
use crate::bytes;
use crate::bytes::{read_le32, read_le64};
use crate::text;
use crate::text::{
    chars_of, contains, lines, next_word, parse_signed32, parse_unsigned, split, starts_with, trim,
};

verus! {

/// The command number of the control request.
pub const NV_ESC_RM_CONTROL: u64 = 0x2A;

/// The control request: read and write, type 0x46, number 0x2a, an argument of 32 bytes.
pub const NV_RM_CONTROL_REQUEST: u64 = 0xC020_462A;

/// Where a request's size field starts.
pub const IOC_SIZESHIFT: u32 = 16;

/// The bits of a request's size field.
pub const IOC_SIZEMASK: u64 = 0x3FFF;

/// The command that lists the attached GPUs.
pub const GPU_GET_ATTACHED_IDS: u32 = 0x0201;

/// The command that lists the probed GPUs.
pub const GPU_GET_PROBED_IDS: u32 = 0x0214;

/// The room for ids in either answer.
pub const MAX_ATTACHED_GPUS: usize = 32;

/// What fills the room that no id takes.
pub const INVALID_GPU_ID: u32 = 0xFFFF_FFFF;

/// The length of an answer that lists the attached GPUs: the ids.
pub const ATTACHED_PARAMS_SIZE: usize = 128;

/// The length of an answer that lists the probed GPUs: the ids, and as many excluded ones.
pub const PROBED_PARAMS_SIZE: usize = 256;

/// The bits of a request other than its size.
pub open spec fn no_size(req: u64) -> u64 {
    req & !(IOC_SIZEMASK << IOC_SIZESHIFT)
}

/// A request without its size, so that a driver whose argument has another length still matches.
pub fn ioc_no_size(req: u64) -> (r: u64)
    ensures
        r == no_size(req),
{
    req & !(IOC_SIZEMASK << IOC_SIZESHIFT)
}

/// A request's command number.
pub fn ioc_nr(req: u64) -> (r: u64)
    ensures
        r == req % 0x100,
{
    assert(req & 0xFF == req % 0x100) by (bit_vector);
    req & 0xFF
}

/// A request matches whatever size it encodes, and no request with another command number does.
pub proof fn matching_ignores_the_size_alone(req: u64, size: u64, other: u64)
    requires
        size <= IOC_SIZEMASK,
    ensures
        no_size(no_size(req) | (size << IOC_SIZESHIFT)) == no_size(req),
        req % 0x100 != other % 0x100 ==> no_size(req) != no_size(other),
{
    assert(size <= 0x3FFF ==> ((req & !(0x3FFFu64 << 16u32)) | (size << 16u32)) & !(0x3FFFu64
        << 16u32) == req & !(0x3FFFu64 << 16u32)) by (bit_vector);
    assert((req & !(0x3FFFu64 << 16u32)) == (other & !(0x3FFFu64 << 16u32)) ==> req % 0x100
        == other % 0x100) by (bit_vector);
}

/// The argument of the control request.
#[derive(Clone, Copy, Debug, PartialEq, Eq, Structural)]
pub struct NvRmControlParams {
    pub h_client: u32,
    pub h_object: u32,
    pub cmd: u32,
    pub flags: u32,
    /// Where the command's own structure is.
    pub params: u64,
    pub params_size: u32,
    pub status: u32,
}

impl NvRmControlParams {
    /// The argument that these bytes lay out.
    pub fn read(raw: &[u8]) -> (p: NvRmControlParams)
        requires
            raw.len() >= 32,
        ensures
            p.h_client == bytes::le32_at(raw@, 0),
            p.h_object == bytes::le32_at(raw@, 4),
            p.cmd == bytes::le32_at(raw@, 8),
            p.flags == bytes::le32_at(raw@, 12),
            p.params == bytes::le64_at(raw@, 16),
            p.params_size == bytes::le32_at(raw@, 24),
            p.status == bytes::le32_at(raw@, 28),
    {
        NvRmControlParams {
            h_client: read_le32(raw, 0),
            h_object: read_le32(raw, 4),
            cmd: read_le32(raw, 8),
            flags: read_le32(raw, 12),
            params: read_le64(raw, 16),
            params_size: read_le32(raw, 24),
            status: read_le32(raw, 28),
        }
    }
}

/// Which list an answer holds.
#[derive(Clone, Copy, Debug, PartialEq, Eq, Structural)]
pub enum IdList {
    Attached,
    Probed,
}

/// What a descriptor is: whether a character device, and which.
#[derive(Clone, Copy, Debug, PartialEq, Eq, Structural)]
pub struct DeviceIdentity {
    pub character: bool,
    pub rdev: u64,
}

/// The call that came back is the control request, and succeeded.
pub open spec fn request_passes(rc: i32, req: u64, has_arg: bool) -> bool {
    rc == 0 && no_size(req) == no_size(NV_RM_CONTROL_REQUEST) && has_arg
}

/// It went to the control device, where that one is known.
pub open spec fn device_passes(cached: u64, device: Option<DeviceIdentity>) -> bool {
    cached == 0 || device == Some(DeviceIdentity { character: true, rdev: cached })
}

/// The list that an answer holds, by its command and its exact length.
pub open spec fn listed(ctrl: NvRmControlParams) -> Option<IdList> {
    if ctrl.status != 0 || ctrl.params == 0 {
        None
    } else if ctrl.cmd == GPU_GET_ATTACHED_IDS && ctrl.params_size == ATTACHED_PARAMS_SIZE {
        Some(IdList::Attached)
    } else if ctrl.cmd == GPU_GET_PROBED_IDS && ctrl.params_size == PROBED_PARAMS_SIZE {
        Some(IdList::Probed)
    } else {
        None
    }
}

/// Whether a call that came back is the control request and succeeded.
pub fn request_gate(rc: i32, req: u64, has_arg: bool) -> (b: bool)
    ensures
        b == request_passes(rc, req, has_arg),
{
    rc == 0 && ioc_no_size(req) == ioc_no_size(NV_RM_CONTROL_REQUEST) && has_arg
}

/// Whether it went to the control device. `cached` is that device's identity, zero where it was
/// never resolved, which leaves the matching to the request; `device` is the descriptor's, `None`
/// where it could not be told.
pub fn device_gate(cached: u64, device: Option<DeviceIdentity>) -> (b: bool)
    ensures
        b == device_passes(cached, device),
{
    if cached == 0 {
        return true;
    }
    match device {
        None => false,
        Some(d) => d.character && d.rdev == cached,
    }
}

/// Which list an answer holds, if it holds one.
pub fn payload_gate(ctrl: &NvRmControlParams) -> (r: Option<IdList>)
    ensures
        r == listed(*ctrl),
{
    if ctrl.status != 0 || ctrl.params == 0 {
        return None;
    }
    let size: usize = ctrl.params_size as usize;
    if ctrl.cmd == GPU_GET_ATTACHED_IDS && size == ATTACHED_PARAMS_SIZE {
        Some(IdList::Attached)
    } else if ctrl.cmd == GPU_GET_PROBED_IDS && size == PROBED_PARAMS_SIZE {
        Some(IdList::Probed)
    } else {
        None
    }
}

/// What a call that came back is due, from the cheapest test on.
#[derive(Clone, Copy, Debug, PartialEq, Eq, Structural)]
pub enum Scrub {
    /// The answer is left as it is.
    Leave,
    /// The descriptor's device has to be told.
    TellDevice,
    /// The argument has to be read.
    ReadArgument,
    /// The ids in it are rewritten.
    Rewrite(IdList),
}

/// The first test: the call is the control request, and succeeded. Where the control device is not
/// known the argument is read at once.
pub fn scrub_call(rc: i32, req: u64, has_arg: bool, cached: u64) -> (s: Scrub)
    ensures
        s == if !request_passes(rc, req, has_arg) {
            Scrub::Leave
        } else if cached != 0 {
            Scrub::TellDevice
        } else {
            Scrub::ReadArgument
        },
{
    if !request_gate(rc, req, has_arg) {
        Scrub::Leave
    } else if cached != 0 {
        Scrub::TellDevice
    } else {
        Scrub::ReadArgument
    }
}

/// The second test: the call went to the control device.
pub fn scrub_device(cached: u64, device: Option<DeviceIdentity>) -> (s: Scrub)
    ensures
        s == if device_passes(cached, device) {
            Scrub::ReadArgument
        } else {
            Scrub::Leave
        },
{
    if device_gate(cached, device) {
        Scrub::ReadArgument
    } else {
        Scrub::Leave
    }
}

/// The third test: the answer holds one of the two lists.
pub fn scrub_answer(ctrl: &NvRmControlParams) -> (s: Scrub)
    ensures
        s == match listed(*ctrl) {
            Some(which) => Scrub::Rewrite(which),
            None => Scrub::Leave,
        },
{
    match payload_gate(ctrl) {
        Some(which) => Scrub::Rewrite(which),
        None => Scrub::Leave,
    }
}

/// What the tests come to, one behind another.
pub open spec fn scrubbed(
    rc: i32,
    req: u64,
    has_arg: bool,
    cached: u64,
    device: Option<DeviceIdentity>,
    ctrl: NvRmControlParams,
) -> Option<IdList> {
    if !request_passes(rc, req, has_arg) {
        None
    } else if cached != 0 && !device_passes(cached, device) {
        None
    } else {
        listed(ctrl)
    }
}

/// An answer is rewritten exactly when all three tests pass, whichever was left out for the control
/// device not being known.
pub proof fn answers_are_rewritten_behind_every_test(
    rc: i32,
    req: u64,
    has_arg: bool,
    cached: u64,
    device: Option<DeviceIdentity>,
    ctrl: NvRmControlParams,
)
    ensures
        scrubbed(rc, req, has_arg, cached, device, ctrl) is Some <==> request_passes(
            rc,
            req,
            has_arg,
        ) && device_passes(cached, device) && listed(ctrl) is Some,
{
}

/// How many ids stand from the `i`th on ahead of the first invalid one.
pub open spec fn live_from(ids: Seq<u32>, i: int) -> nat
    decreases ids.len() - i,
{
    if i >= ids.len() || ids[i] == INVALID_GPU_ID {
        0
    } else {
        1 + live_from(ids, i + 1)
    }
}

/// How many ids stand ahead of the first invalid one.
pub open spec fn live(ids: Seq<u32>) -> nat {
    live_from(ids, 0)
}

/// The ids among the first `n` that are kept.
pub open spec fn kept(ids: Seq<u32>, keep: Seq<bool>, n: int) -> Seq<u32>
    decreases n,
{
    if n <= 0 {
        Seq::empty()
    } else if keep[n - 1] {
        kept(ids, keep, n - 1).push(ids[n - 1])
    } else {
        kept(ids, keep, n - 1)
    }
}

/// A list with the hidden ids dropped: those kept in front, the rest of the room invalid, and
/// nothing done unless some are kept and some are not.
pub open spec fn filtered(ids: Seq<u32>, keep: Seq<bool>) -> Seq<u32> {
    let left = kept(ids, keep, live(ids) as int);
    if 0 < left.len() < live(ids) {
        left + Seq::new((ids.len() - left.len()) as nat, |_i: int| INVALID_GPU_ID)
    } else {
        ids
    }
}

proof fn live_prefix(ids: Seq<u32>, i: int)
    requires
        0 <= i <= ids.len(),
    ensures
        i + live_from(ids, i) <= ids.len(),
        forall|j: int| i <= j < i + live_from(ids, i) ==> ids[j] != INVALID_GPU_ID,
        i + live_from(ids, i) < ids.len() ==> ids[i + live_from(ids, i)] == INVALID_GPU_ID,
    decreases ids.len() - i,
{
    if i < ids.len() && ids[i] != INVALID_GPU_ID {
        live_prefix(ids, i + 1);
    }
}

proof fn kept_are_among(ids: Seq<u32>, keep: Seq<bool>, n: int)
    requires
        0 <= n <= ids.len(),
    ensures
        kept(ids, keep, n).len() <= n,
        forall|j: int|
            0 <= j < kept(ids, keep, n).len() ==> ids.take(n).contains(
                #[trigger] kept(ids, keep, n)[j],
            ),
    decreases n,
{
    if n > 0 {
        kept_are_among(ids, keep, n - 1);
        assert(ids.take(n)[n - 1] == ids[n - 1]);
        assert forall|j: int| 0 <= j < kept(ids, keep, n).len() implies ids.take(n).contains(
            #[trigger] kept(ids, keep, n)[j],
        ) by {
            if j < kept(ids, keep, n - 1).len() {
                assert(ids.take(n - 1).contains(kept(ids, keep, n - 1)[j]));
                let shorter = ids.take(n - 1);
                let id = kept(ids, keep, n - 1)[j];
                let k = choose|k: int| 0 <= k < shorter.len() && #[trigger] shorter[k] == id;
                assert(ids.take(n)[k] == ids.take(n - 1)[k]);
            }
        }
    }
}

proof fn live_of(ids: Seq<u32>, i: int, n: int)
    requires
        0 <= i <= n <= ids.len(),
        forall|j: int| i <= j < n ==> ids[j] != INVALID_GPU_ID,
        n < ids.len() ==> ids[n] == INVALID_GPU_ID,
    ensures
        live_from(ids, i) == n - i,
    decreases n - i,
{
    if i < n {
        live_of(ids, i + 1, n);
    }
}

/// The filter never drops every id, never adds one, and drops nothing that is kept: what is left
/// is the list itself, or exactly the ids kept of it, and those are some but not all.
pub proof fn filter_drops_a_strict_subset(ids: Seq<u32>, keep: Seq<bool>)
    ensures
        filtered(ids, keep).len() == ids.len(),
        live(filtered(ids, keep)) <= live(ids),
        live(ids) > 0 ==> live(filtered(ids, keep)) > 0,
        filtered(ids, keep) == ids || {
            &&& filtered(ids, keep).take(live(filtered(ids, keep)) as int) == kept(
                ids,
                keep,
                live(ids) as int,
            )
            &&& live(filtered(ids, keep)) < live(ids)
        },
        forall|j: int|
            0 <= j < live(filtered(ids, keep)) ==> ids.take(live(ids) as int).contains(
                #[trigger] filtered(ids, keep)[j],
            ),
{
    let n = live(ids) as int;
    let left = kept(ids, keep, n);
    let out = filtered(ids, keep);
    live_prefix(ids, 0);
    kept_are_among(ids, keep, n);
    if 0 < left.len() < n {
        assert forall|j: int| 0 <= j < left.len() implies out[j] != INVALID_GPU_ID by {
            assert(ids.take(n).contains(left[j]));
        }
        live_of(out, 0, left.len() as int);
        assert(out.take(left.len() as int) =~= left);
    } else {
        assert forall|j: int| 0 <= j < n implies ids.take(n).contains(#[trigger] out[j]) by {
            assert(ids.take(n)[j] == ids[j]);
        }
    }
}

/// Drop the hidden GPUs from a list in place, but only ever some of them: a container is never
/// left without any. What `keep` says of each id ahead of the first invalid one decides.
pub fn filter_ids<F: Fn(u32) -> bool>(ids: &mut [u32; MAX_ATTACHED_GPUS], keep: F)
    requires
        forall|id: u32| #[trigger] call_requires(keep, (id,)),
    ensures
        exists|flags: Seq<bool>|
            {
                &&& flags.len() == live(old(ids)@)
                &&& forall|i: int|
                    0 <= i < flags.len() ==> call_ensures(
                        keep,
                        (old(ids)@[i],),
                        #[trigger] flags[i],
                    )
                &&& final(ids)@ == #[trigger] filtered(old(ids)@, flags)
            },
{
    let ghost before = ids@;
    let ghost mut flags: Seq<bool> = Seq::empty();
    let mut left: Vec<u32> = Vec::new();
    let mut total: usize = 0;
    proof {
        live_prefix(before, 0);
    }
    while total < MAX_ATTACHED_GPUS && ids[total] != INVALID_GPU_ID
        invariant
            total <= MAX_ATTACHED_GPUS,
            ids@ == before,
            before.len() == MAX_ATTACHED_GPUS,
            live(before) == total + live_from(before, total as int),
            flags.len() == total,
            left@ == kept(before, flags, total as int),
            left@.len() <= total,
            forall|id: u32| #[trigger] call_requires(keep, (id,)),
            forall|i: int|
                0 <= i < total ==> call_ensures(keep, (before[i],), #[trigger] flags[i]),
        decreases MAX_ATTACHED_GPUS - total,
    {
        let id: u32 = ids[total];
        let flag: bool = keep(id);
        let ghost longer = flags.push(flag);
        proof {
            kept_reads_flags_ahead(before, flags, longer, total as int);
            flags = longer;
        }
        if flag {
            left.push(id);
        }
        total += 1;
    }
    assert(live(before) == total);
    if left.len() > 0 && left.len() < total {
        let mut i: usize = 0;
        while i < MAX_ATTACHED_GPUS
            invariant
                i <= MAX_ATTACHED_GPUS,
                ids@.len() == MAX_ATTACHED_GPUS,
                left@.len() <= MAX_ATTACHED_GPUS,
                forall|j: int|
                    0 <= j < i ==> ids@[j] == if j < left@.len() {
                        left@[j]
                    } else {
                        INVALID_GPU_ID
                    },
            decreases MAX_ATTACHED_GPUS - i,
        {
            let v: u32 = if i < left.len() {
                left[i]
            } else {
                INVALID_GPU_ID
            };
            ids[i] = v;
            i += 1;
        }
        assert(ids@ =~= filtered(before, flags));
    }
    assert(ids@ == filtered(before, flags));
}

proof fn kept_reads_flags_ahead(ids: Seq<u32>, a: Seq<bool>, b: Seq<bool>, n: int)
    requires
        0 <= n <= a.len(),
        n <= b.len(),
        forall|i: int| 0 <= i < n ==> a[i] == b[i],
    ensures
        kept(ids, a, n) == kept(ids, b, n),
    decreases n,
{
    if n > 0 {
        kept_reads_flags_ahead(ids, a, b, n - 1);
    }
}

/// How many ids a list holds.
pub fn live_ids(ids: &[u32; MAX_ATTACHED_GPUS]) -> (n: usize)
    ensures
        n == live(ids@),
{
    let mut n: usize = 0;
    while n < MAX_ATTACHED_GPUS && ids[n] != INVALID_GPU_ID
        invariant
            n <= MAX_ATTACHED_GPUS,
            ids@.len() == MAX_ATTACHED_GPUS,
            live(ids@) == n + live_from(ids@, n as int),
        decreases MAX_ATTACHED_GPUS - n,
    {
        n += 1;
    }
    n
}

/// Drop the hidden GPUs from an answer, and return how many it listed before and after.
pub fn rewrite_attached_ids<F: Fn(u32) -> bool>(
    ids: &mut [u32; MAX_ATTACHED_GPUS],
    keep: F,
) -> (r: (usize, usize))
    requires
        forall|id: u32| #[trigger] call_requires(keep, (id,)),
    ensures
        exists|flags: Seq<bool>|
            {
                &&& flags.len() == live(old(ids)@)
                &&& forall|i: int|
                    0 <= i < flags.len() ==> call_ensures(
                        keep,
                        (old(ids)@[i],),
                        #[trigger] flags[i],
                    )
                &&& final(ids)@ == #[trigger] filtered(old(ids)@, flags)
            },
        r.0 == live(old(ids)@),
        r.1 == live(final(ids)@),
{
    let before: usize = live_ids(ids);
    filter_ids(ids, keep);
    let after: usize = live_ids(ids);
    (before, after)
}

/// A GPU as the driver lists it: its PCI address, and what it says of itself where that could be
/// read.
#[derive(Debug)]
pub struct GpuEntry {
    pub name: String,
    pub information: Option<String>,
}

/// The domain and bus of a PCI address `domain:bus:slot.function`, in hexadecimal.
pub open spec fn pci_of(name: Seq<char>) -> Option<(u32, u32)> {
    let fields = text::parts(name, seq![':', '.']);
    if fields.len() != 4 {
        None
    } else {
        match (
            text::unsigned(fields[0], 16, 0xffff_ffff),
            text::unsigned(fields[1], 16, 0xffff_ffff),
        ) {
            (Some(domain), Some(bus)) => Some((domain as u32, bus as u32)),
            _ => None,
        }
    }
}

fn pci_address(name: &[char]) -> (r: Option<(u32, u32)>)
    ensures
        r == pci_of(name@),
{
    let seps: [char; 2] = [':', '.'];
    assert(seps@ =~= seq![':', '.']);
    let fields = split(name, seps.as_slice());
    let ghost views = text::slice_views(fields@);
    assert(views.len() == fields@.len());
    if fields.len() != 4 {
        return None;
    }
    assert(views[0] == fields@[0]@ && views[1] == fields@[1]@);
    match (parse_unsigned(fields[0], 16, 0xffff_ffff), parse_unsigned(fields[1], 16, 0xffff_ffff)) {
        (Some(domain), Some(bus)) => Some((domain as u32, bus as u32)),
        _ => None,
    }
}

/// An id names the GPU at this domain and bus: the address stands above its lowest byte, with
/// the domain folded in or left out.
pub open spec fn names_gpu(gpu_id: u32, domain: u32, bus: u32) -> bool {
    bus == (gpu_id >> 8) & 0xFF || (domain << 8) | bus == gpu_id >> 8
}

/// What opens the line that tells a GPU's minor.
pub const MINOR_KEY: &'static str = "Device Minor:";

/// The minor that the lines from the `i`th on tell.
pub open spec fn minor_in(lines: Seq<Seq<char>>, i: int) -> int
    decreases lines.len() - i,
{
    if i >= lines.len() {
        -1
    } else if text::opens_with(lines[i], MINOR_KEY@) && text::signed32(
        text::trimmed(lines[i].skip(MINOR_KEY@.len() as int)),
    ) is Some {
        text::signed32(text::trimmed(lines[i].skip(MINOR_KEY@.len() as int)))->0
    } else {
        minor_in(lines, i + 1)
    }
}

fn minor_of(info: &str) -> (minor: i32)
    ensures
        minor == minor_in(text::lines_of(info@), 0),
{
    let all = chars_of(info);
    let rows = lines(all.as_slice());
    let key = chars_of(MINOR_KEY);
    let ghost views = text::slice_views(rows@);
    let mut i: usize = 0;
    while i < rows.len()
        invariant
            i <= rows@.len(),
            key@ == MINOR_KEY@,
            views == text::slice_views(rows@),
            views == text::lines_of(info@),
            minor_in(views, i as int) == minor_in(views, 0),
        decreases rows@.len() - i,
    {
        assert(views[i as int] == rows@[i as int]@);
        if starts_with(rows[i], key.as_slice()) {
            let rest = slice_subrange(rows[i], key.len(), rows[i].len());
            assert(rest@ =~= views[i as int].skip(MINOR_KEY@.len() as int));
            if let Some(m) = parse_signed32(trim(rest)) {
                return m;
            }
        }
        i += 1;
    }
    -1
}

/// The minor of the first GPU from the `i`th on that an id names; -1 where there is none, or it
/// does not tell.
pub open spec fn minor_of_id(gpu_id: u32, gpus: Seq<GpuEntry>, i: int) -> int
    decreases gpus.len() - i,
{
    if i >= gpus.len() {
        -1
    } else {
        match pci_of(gpus[i].name@) {
            Some((domain, bus)) if names_gpu(gpu_id, domain, bus) => match gpus[i].information {
                Some(info) => minor_in(text::lines_of(info@), 0),
                None => -1,
            },
            _ => minor_of_id(gpu_id, gpus, i + 1),
        }
    }
}

/// The device minor of a GPU id: the id carries a PCI address, and the driver lists the minors by
/// address.
pub fn gpuid_to_minor(gpu_id: u32, gpus: &[GpuEntry]) -> (minor: i32)
    ensures
        minor == minor_of_id(gpu_id, gpus@, 0),
{
    let want_bus: u32 = (gpu_id >> 8) & 0xFF;
    let want_full: u32 = gpu_id >> 8;
    let mut i: usize = 0;
    while i < gpus.len()
        invariant
            i <= gpus@.len(),
            want_bus == (gpu_id >> 8) & 0xFF,
            want_full == gpu_id >> 8,
            minor_of_id(gpu_id, gpus@, i as int) == minor_of_id(gpu_id, gpus@, 0),
        decreases gpus@.len() - i,
    {
        let name = chars_of(gpus[i].name.as_str());
        match pci_address(name.as_slice()) {
            Some((domain, bus)) => {
                if bus == want_bus || (domain << 8) | bus == want_full {
                    return match &gpus[i].information {
                        Some(info) => minor_of(info.as_str()),
                        None => -1,
                    };
                }
            },
            None => {},
        }
        i += 1;
    }
    -1
}

/// A page can be read, written, run.
pub const PROT_READ: i32 = 1;

pub const PROT_WRITE: i32 = 2;

pub const PROT_EXEC: i32 = 4;

/// The `k`th byte of a string is the letter `c`: only letters of one byte each stand ahead of it.
pub open spec fn byte_is(s: Seq<char>, k: int, c: char) -> bool {
    k < s.len() && s[k] == c && forall|j: int| 0 <= j < k ==> s[j] <= '\u{7f}'
}

/// The protection that a mapping's letters spell.
pub open spec fn prot_of(perms: Seq<char>) -> i32 {
    ((if byte_is(perms, 0, 'r') {
        PROT_READ as int
    } else {
        0
    }) + (if byte_is(perms, 1, 'w') {
        PROT_WRITE as int
    } else {
        0
    }) + (if byte_is(perms, 2, 'x') {
        PROT_EXEC as int
    } else {
        0
    })) as i32
}

/// The address range and letters of a line `lo-hi perms ...`.
pub open spec fn mapping(line: Seq<char>) -> Option<(nat, nat, Seq<char>)> {
    match text::first_word(line) {
        None => None,
        Some((range, rest)) => match text::first_word(rest) {
            None => None,
            Some((perms, _)) => {
                let ends = text::parts(range, seq!['-']);
                if ends.len() < 2 {
                    None
                } else {
                    match (
                        text::unsigned(ends[0], 16, u64::MAX as nat),
                        text::unsigned(ends[1], 16, u64::MAX as nat),
                    ) {
                        (Some(lo), Some(hi)) => Some((lo, hi, perms)),
                        _ => None,
                    }
                }
            },
        },
    }
}

/// The protection of the page at `addr`, by the lines from the `i`th on; -1 where none has it.
pub open spec fn prot_in(lines: Seq<Seq<char>>, addr: u64, i: int) -> i32
    decreases lines.len() - i,
{
    if i >= lines.len() {
        -1i32
    } else {
        match mapping(lines[i]) {
            Some((lo, hi, perms)) if lo <= addr < hi => prot_of(perms),
            _ => prot_in(lines, addr, i + 1),
        }
    }
}

fn prot_letters(perms: &[char]) -> (prot: i32)
    ensures
        prot == prot_of(perms@),
{
    let mut prot: i32 = 0;
    if perms.len() > 0 && perms[0] == 'r' {
        prot += PROT_READ;
    }
    assert(byte_is(perms@, 0, 'r') == (perms@.len() > 0 && perms@[0] == 'r'));
    let one_byte = perms.len() > 1 && is_one_byte(perms[0]);
    if one_byte && perms[1] == 'w' {
        prot += PROT_WRITE;
    }
    assert(byte_is(perms@, 1, 'w') == (one_byte && perms@[1] == 'w'));
    let two_bytes = one_byte && perms.len() > 2 && is_one_byte(perms[1]);
    if two_bytes && perms[2] == 'x' {
        prot += PROT_EXEC;
    }
    proof {
        if byte_is(perms@, 2, 'x') {
            assert(perms@[0] <= '\u{7f}' && perms@[1] <= '\u{7f}');
        }
        assert(byte_is(perms@, 2, 'x') == (two_bytes && perms@[2] == 'x'));
    }
    prot
}

fn is_one_byte(c: char) -> (b: bool)
    ensures
        b == (c <= '\u{7f}'),
{
    c as u32 <= 0x7f
}

fn read_mapping<'a>(line: &'a [char]) -> (r: Option<(u64, u64, &'a [char])>)
    ensures
        match r {
            Some((lo, hi, perms)) => mapping(line@) == Some((lo as nat, hi as nat, perms@)),
            None => mapping(line@) is None,
        },
{
    match next_word(line) {
        None => None,
        Some((range, rest)) => match next_word(rest) {
            None => None,
            Some((perms, _)) => {
                let dash: [char; 1] = ['-'];
                assert(dash@ =~= seq!['-']);
                let ends = split(range, dash.as_slice());
                let ghost views = text::slice_views(ends@);
                assert(views.len() == ends@.len());
                if ends.len() < 2 {
                    return None;
                }
                assert(views[0] == ends@[0]@ && views[1] == ends@[1]@);
                match (
                    parse_unsigned(ends[0], 16, 0xffff_ffff_ffff_ffff),
                    parse_unsigned(ends[1], 16, 0xffff_ffff_ffff_ffff),
                ) {
                    (Some(lo), Some(hi)) => Some((lo, hi, perms)),
                    _ => None,
                }
            },
        },
    }
}

/// The protection of the page at an address, from the process's own map; -1 where the map could
/// not be read or does not hold the address.
pub open spec fn page_protection(maps: Option<&str>, addr: u64) -> i32 {
    match maps {
        None => -1i32,
        Some(m) => prot_in(text::lines_of(m@), addr, 0),
    }
}

/// The protection of the page at an address, so that the patch can refuse to read an address that
/// a wrong guess landed in an unreadable page, and can restore a page to what it was.
pub fn page_prot(maps: Option<&str>, addr: u64) -> (prot: i32)
    ensures
        prot == page_protection(maps, addr),
{
    let m = match maps {
        None => {
            return -1;
        },
        Some(m) => m,
    };
    let all = chars_of(m);
    let rows = lines(all.as_slice());
    let ghost views = text::slice_views(rows@);
    let mut i: usize = 0;
    while i < rows.len()
        invariant
            i <= rows@.len(),
            views == text::slice_views(rows@),
            views == text::lines_of(m@),
            maps == Some(m),
            prot_in(views, addr, i as int) == prot_in(views, addr, 0),
        decreases rows@.len() - i,
    {
        assert(views[i as int] == rows@[i as int]@);
        if let Some((lo, hi, perms)) = read_mapping(rows[i]) {
            if addr >= lo && addr < hi {
                return prot_letters(perms);
            }
        }
        i += 1;
    }
    -1
}

/// The machine a library was built for.
#[derive(Clone, Copy, Debug, PartialEq, Eq, Structural)]
pub enum Arch {
    X86_64,
    Aarch64,
    Other,
}

impl Arch {
    /// The relocation of an eagerly bound slot.
    pub fn reloc_glob_dat(self) -> (r: u32)
        ensures
            r == match self {
                Arch::X86_64 => 6u32,
                Arch::Aarch64 => 1025,
                Arch::Other => u32::MAX,
            },
    {
        match self {
            Arch::X86_64 => 6,
            Arch::Aarch64 => 1025,
            Arch::Other => 0xffff_ffff,
        }
    }

    /// The relocation of a lazily bound slot.
    pub fn reloc_jump_slot(self) -> (r: u32)
        ensures
            r == match self {
                Arch::X86_64 => 7u32,
                Arch::Aarch64 => 1026,
                Arch::Other => u32::MAX,
            },
    {
        match self {
            Arch::X86_64 => 7,
            Arch::Aarch64 => 1026,
            Arch::Other => 0xffff_ffff,
        }
    }

    /// The filter knows this machine's relocations.
    pub fn reloc_arch_supported(self) -> (b: bool)
        ensures
            b == (self != Arch::Other),
    {
        self != Arch::Other
    }

    /// The relocation types of the slots that are repointed.
    pub open spec fn slots(self) -> (u32, u32) {
        match self {
            Arch::X86_64 => (6, 7),
            Arch::Aarch64 => (1025, 1026),
            Arch::Other => (u32::MAX, u32::MAX),
        }
    }
}

pub const DT_NULL: i64 = 0;

pub const DT_PLTRELSZ: i64 = 2;

pub const DT_STRTAB: i64 = 5;

pub const DT_SYMTAB: i64 = 6;

pub const DT_RELA: i64 = 7;

pub const DT_RELASZ: i64 = 8;

pub const DT_JMPREL: i64 = 23;

/// The length of a relocation entry: offset, info, addend.
pub const RELA_LEN: u64 = 24;

/// An address that some loaders have made absolute and some have not.
pub open spec fn absolute(base: u64, v: u64) -> int {
    if v < base {
        base + v
    } else {
        v as int
    }
}

/// The absolute address of a dynamic entry's pointer: one below the load address is relative to
/// it.
pub fn dyn_addr(base: u64, v: u64) -> (r: u64)
    requires
        absolute(base, v) <= u64::MAX,
    ensures
        r == absolute(base, v),
{
    if v < base {
        base + v
    } else {
        v
    }
}

/// One entry of a library's dynamic section.
#[derive(Clone, Copy, Debug, PartialEq, Eq, Structural)]
pub struct Elf64Dyn {
    pub d_tag: i64,
    pub d_un: u64,
}

/// Where a library's tables are and how long; zero where it has none.
#[derive(Clone, Copy, Debug, PartialEq, Eq, Structural)]
pub struct DynTables {
    pub symtab: u64,
    pub strtab: u64,
    pub jmprel: u64,
    pub pltrelsz: u64,
    pub rela: u64,
    pub relasz: u64,
}

/// The value of the last entry with a tag among the first `n`, none of which closes the section.
pub open spec fn last_of(entries: Seq<Elf64Dyn>, tag: i64, n: int) -> Option<u64>
    decreases n,
{
    if n <= 0 {
        None
    } else if entries[n - 1].d_tag == tag {
        Some(entries[n - 1].d_un)
    } else {
        last_of(entries, tag, n - 1)
    }
}

/// How many entries stand from the `i`th on ahead of the one that closes the section.
pub open spec fn open_entries(entries: Seq<Elf64Dyn>, i: int) -> nat
    decreases entries.len() - i,
{
    if i >= entries.len() || entries[i].d_tag == DT_NULL {
        0
    } else {
        1 + open_entries(entries, i + 1)
    }
}

/// The table that a tag points to.
pub open spec fn table_at(base: u64, entries: Seq<Elf64Dyn>, tag: i64, n: int) -> int {
    match last_of(entries, tag, n) {
        Some(v) => absolute(base, v),
        None => 0,
    }
}

/// The length that a tag tells.
pub open spec fn length_of(entries: Seq<Elf64Dyn>, tag: i64, n: int) -> u64 {
    match last_of(entries, tag, n) {
        Some(v) => v,
        None => 0,
    }
}

/// The tables are those that the first `n` entries tell.
pub open spec fn told_by(t: DynTables, base: u64, entries: Seq<Elf64Dyn>, n: int) -> bool {
    &&& t.symtab == table_at(base, entries, DT_SYMTAB, n)
    &&& t.strtab == table_at(base, entries, DT_STRTAB, n)
    &&& t.jmprel == table_at(base, entries, DT_JMPREL, n)
    &&& t.pltrelsz == length_of(entries, DT_PLTRELSZ, n)
    &&& t.rela == table_at(base, entries, DT_RELA, n)
    &&& t.relasz == length_of(entries, DT_RELASZ, n)
}

/// The entry points to a table.
pub open spec fn is_pointer(d: Elf64Dyn) -> bool {
    d.d_tag == DT_SYMTAB || d.d_tag == DT_STRTAB || d.d_tag == DT_JMPREL || d.d_tag == DT_RELA
}

/// The tables that a library's dynamic section tells of, up to the entry that closes it.
pub fn dynamic_tables(base: u64, entries: &[Elf64Dyn]) -> (t: DynTables)
    requires
        forall|i: int|
            0 <= i < open_entries(entries@, 0) && is_pointer(#[trigger] entries@[i]) ==> absolute(
                base,
                entries@[i].d_un,
            ) <= u64::MAX,
    ensures
        told_by(t, base, entries@, open_entries(entries@, 0) as int),
{
    let mut t = DynTables { symtab: 0, strtab: 0, jmprel: 0, pltrelsz: 0, rela: 0, relasz: 0 };
    let mut i: usize = 0;
    while i < entries.len() && entries[i].d_tag != DT_NULL
        invariant
            i <= entries@.len(),
            open_entries(entries@, 0) == i + open_entries(entries@, i as int),
            told_by(t, base, entries@, i as int),
            forall|i: int|
                0 <= i < open_entries(entries@, 0) && is_pointer(#[trigger] entries@[i])
                    ==> absolute(base, entries@[i].d_un) <= u64::MAX,
        decreases entries@.len() - i,
    {
        let d: Elf64Dyn = entries[i];
        if d.d_tag == DT_SYMTAB {
            t.symtab = dyn_addr(base, d.d_un);
        } else if d.d_tag == DT_STRTAB {
            t.strtab = dyn_addr(base, d.d_un);
        } else if d.d_tag == DT_JMPREL {
            t.jmprel = dyn_addr(base, d.d_un);
        } else if d.d_tag == DT_PLTRELSZ {
            t.pltrelsz = d.d_un;
        } else if d.d_tag == DT_RELA {
            t.rela = dyn_addr(base, d.d_un);
        } else if d.d_tag == DT_RELASZ {
            t.relasz = d.d_un;
        }
        i += 1;
    }
    t
}

/// A relocation table: where it is, and how many entries it has.
#[derive(Clone, Copy, Debug, PartialEq, Eq, Structural)]
pub struct RelocTable {
    pub addr: u64,
    pub count: u64,
}

/// An address can be read, or nothing is known of it.
pub open spec fn can_read(maps: Option<&str>, addr: u64) -> bool {
    let prot = page_protection(maps, addr);
    prot < 0 || prot % 2 == 1
}

fn readable(maps: Option<&str>, addr: u64) -> (b: bool)
    ensures
        b == can_read(maps, addr),
{
    let prot: i32 = page_prot(maps, addr);
    if prot < 0 {
        return true;
    }
    prot % 2 == 1
}

/// A table to walk: it is there, holds an entry, and can be read.
pub open spec fn walked(maps: Option<&str>, addr: u64, size: u64) -> Seq<RelocTable> {
    if addr != 0 && size >= RELA_LEN && can_read(maps, addr) {
        seq![RelocTable { addr, count: size / RELA_LEN }]
    } else {
        Seq::empty()
    }
}

/// The relocation tables to walk: none where the symbols or their names are missing or cannot be
/// read, or the page size is unknown.
pub open spec fn tables_to_walk(maps: Option<&str>, t: DynTables, page: i64) -> Seq<RelocTable> {
    if t.symtab == 0 || t.strtab == 0 || !can_read(maps, t.symtab) || !can_read(maps, t.strtab)
        || page <= 0 {
        Seq::empty()
    } else {
        walked(maps, t.jmprel, t.pltrelsz) + walked(maps, t.rela, t.relasz)
    }
}

/// The relocation tables of a library to walk for slots that bind `ioctl`: the table of lazily
/// bound slots and the general one, since a library built without lazy binding has its slot in
/// the latter.
pub fn patch_ioctl_got(maps: Option<&str>, t: &DynTables, page: i64) -> (r: Vec<RelocTable>)
    ensures
        r@ == tables_to_walk(maps, *t, page),
{
    let mut r: Vec<RelocTable> = Vec::new();
    if t.symtab == 0 || t.strtab == 0 {
        return r;
    }
    if !readable(maps, t.symtab) || !readable(maps, t.strtab) {
        return r;
    }
    if page <= 0 {
        return r;
    }
    if t.jmprel != 0 && t.pltrelsz >= RELA_LEN && readable(maps, t.jmprel) {
        r.push(RelocTable { addr: t.jmprel, count: t.pltrelsz / RELA_LEN });
    }
    if t.rela != 0 && t.relasz >= RELA_LEN && readable(maps, t.rela) {
        r.push(RelocTable { addr: t.rela, count: t.relasz / RELA_LEN });
    }
    assert(r@ =~= tables_to_walk(maps, *t, page));
    r
}

/// The symbol index of a relocation: the upper half of its info.
pub fn elf64_r_sym(info: u64) -> (r: u64)
    ensures
        r == info / 0x1_0000_0000,
{
    assert(info >> 32 == info / 0x1_0000_0000) by (bit_vector);
    info >> 32
}

/// The type of a relocation: the lower half of its info.
pub fn elf64_r_type(info: u64) -> (r: u32)
    ensures
        r == info % 0x1_0000_0000,
{
    assert(info & 0xffff_ffff == info % 0x1_0000_0000) by (bit_vector);
    (info & 0xffff_ffff) as u32
}

/// The symbol whose name decides whether a relocation is a slot to repoint, where it can be one.
pub fn slot_symbol(arch: Arch, info: u64) -> (r: Option<u64>)
    ensures
        r == if (info % 0x1_0000_0000 == arch.slots().0 || info % 0x1_0000_0000 == arch.slots().1)
            && info / 0x1_0000_0000 != 0 {
            Some((info / 0x1_0000_0000) as u64)
        } else {
            None
        },
{
    let kind: u32 = elf64_r_type(info);
    if kind != arch.reloc_jump_slot() && kind != arch.reloc_glob_dat() {
        return None;
    }
    let sym: u64 = elf64_r_sym(info);
    if sym == 0 {
        return None;
    }
    Some(sym)
}

/// The symbol that is repointed.
pub const IOCTL_NAME: &'static str = "ioctl";

/// Whether a symbol is the one that is repointed.
pub fn is_ioctl(name: &str) -> (b: bool)
    ensures
        b == (name@ == IOCTL_NAME@),
{
    let a = chars_of(name);
    let b = chars_of(IOCTL_NAME);
    text::same(a.as_slice(), b.as_slice())
}

/// How one slot is repointed: the page is made writable, the slot is stored to, and the page gets
/// back the protection it had.
#[derive(Clone, Copy, Debug, PartialEq, Eq, Structural)]
pub struct SlotPatch {
    pub slot: u64,
    pub page: u64,
    pub restore: i32,
}

/// How the slot of a relocation is repointed. A page whose protection is unknown is left readable
/// and writable: lazy binding stores to it.
pub fn patch_slot(maps: Option<&str>, base: u64, r_offset: u64, page: u64) -> (p: SlotPatch)
    requires
        base + r_offset <= u64::MAX,
        page > 0,
    ensures
        p.slot == base + r_offset,
        p.page == (base + r_offset) as u64 & !((page - 1) as u64),
        p.restore == if page_protection(maps, p.slot) < 0 {
            PROT_READ + PROT_WRITE
        } else {
            page_protection(maps, p.slot) as int
        },
{
    let slot: u64 = base + r_offset;
    let orig: i32 = page_prot(maps, slot);
    let restore: i32 = if orig < 0 {
        PROT_READ + PROT_WRITE
    } else {
        orig
    };
    SlotPatch { slot, page: slot & !(page - 1), restore }
}

/// What the names of the libraries that enumerate the GPUs hold.
pub const LIB_CUVID: &'static str = "libnvcuvid";

pub const LIB_ENCODE: &'static str = "libnvidia-encode";

pub const LIB_CUDA: &'static str = "libcuda.so";

/// Whether a loaded object is one of the libraries that enumerate the GPUs.
pub fn targets_library(name: &str) -> (b: bool)
    ensures
        b == (text::holds(name@, LIB_CUVID@) || text::holds(name@, LIB_ENCODE@) || text::holds(
            name@,
            LIB_CUDA@,
        )),
{
    let n = chars_of(name);
    let a = chars_of(LIB_CUVID);
    let b = chars_of(LIB_ENCODE);
    let c = chars_of(LIB_CUDA);
    contains(n.as_slice(), a.as_slice()) || contains(n.as_slice(), b.as_slice()) || contains(
        n.as_slice(),
        c.as_slice(),
    )
}

/// How many of the first `n` entries name a GPU: those that a dot does not hide.
pub open spec fn host_gpus(entries: Seq<String>, n: int) -> nat
    decreases n,
{
    if n <= 0 {
        0
    } else if entries[n - 1]@.len() > 0 && entries[n - 1]@[0] == '.' {
        host_gpus(entries, n - 1)
    } else {
        host_gpus(entries, n - 1) + 1
    }
}

/// How many of the first `n` nodes are there.
pub open spec fn visible_gpus(present: Seq<bool>, n: int) -> nat
    decreases n,
{
    if n <= 0 {
        0
    } else if present[n - 1] {
        visible_gpus(present, n - 1) + 1
    } else {
        visible_gpus(present, n - 1)
    }
}

/// Some host GPU is hidden, and some is not.
pub open spec fn some_hidden(entries: Seq<String>, present: Seq<bool>) -> bool {
    let host = host_gpus(entries, entries.len() as int);
    let visible = visible_gpus(present, present.len() as int);
    host > visible && visible > 0
}

/// Whether at least one host GPU is hidden and one is not, the only situation in which the
/// enumeration fails: `entries` are the GPUs the driver lists, `present` says of each node
/// whether it is there.
pub fn has_hidden_gpus(entries: &[String], present: &[bool; MAX_ATTACHED_GPUS]) -> (b: bool)
    ensures
        b == some_hidden(entries@, present@),
{
    let mut host: usize = 0;
    let mut i: usize = 0;
    while i < entries.len()
        invariant
            i <= entries@.len(),
            host <= i,
            host == host_gpus(entries@, i as int),
        decreases entries@.len() - i,
    {
        let name = entries[i].as_str();
        if !(name.unicode_len() > 0 && name.get_char(0) == '.') {
            host += 1;
        }
        i += 1;
    }
    let mut visible: usize = 0;
    let mut j: usize = 0;
    while j < MAX_ATTACHED_GPUS
        invariant
            j <= MAX_ATTACHED_GPUS,
            visible <= j,
            visible == visible_gpus(present@, j as int),
            present@.len() == MAX_ATTACHED_GPUS,
        decreases MAX_ATTACHED_GPUS - j,
    {
        if present[j] {
            visible += 1;
        }
        j += 1;
    }
    host > visible && visible > 0
}

/// What installing the filter comes to.
#[derive(Clone, Copy, Debug, PartialEq, Eq, Structural)]
pub enum Install {
    /// The environment switched it off.
    Disabled,
    /// The machine's relocations are unknown.
    Unsupported,
    /// The libraries are patched.
    Patch,
    /// No GPU is hidden: nothing to do.
    Unneeded,
}

/// What installing the filter comes to.
pub fn install(
    disabled: bool,
    arch: Arch,
    entries: &[String],
    present: &[bool; MAX_ATTACHED_GPUS],
) -> (r: Install)
    ensures
        r == if disabled {
            Install::Disabled
        } else if arch == Arch::Other {
            Install::Unsupported
        } else if some_hidden(entries@, present@) {
            Install::Patch
        } else {
            Install::Unneeded
        },
{
    if disabled {
        return Install::Disabled;
    }
    if !arch.reloc_arch_supported() {
        return Install::Unsupported;
    }
    if has_hidden_gpus(entries, present) {
        Install::Patch
    } else {
        Install::Unneeded
    }
}

} // verus!
