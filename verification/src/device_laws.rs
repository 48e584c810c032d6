//! What is read of devices and written to them: cards are matched by what they are, lists keep what
//! is visible, pixels keep their colour, and texts read as they are written.

use vstd::prelude::*;
use crate::bring_up;
use crate::bytes;
use crate::gpu;
use crate::gpu::{Card, IdentityView};
use crate::nvgpufilter;
use crate::nvgpufilter::{Arch, DeviceIdentity, DynTables, Elf64Dyn, IdList, NvRmControlParams};
use crate::pixels;
use crate::pixels::{ShmError, ShmSpec};
use crate::process;
use crate::text;
use crate::uinput;

verus! {

/// A card matches its driver's name, its vendor's number however it is written, its vendor's name,
/// and the prefix of what it is compatible with; one of which nothing is known matches nothing.
#[verifier::spinoff_prover]
#[verifier::rlimit(40)]
pub proof fn cards_match_what_they_are(token: Seq<char>, id: IdentityView, k: int)
    ensures
        id.driver.len() > 0 && token == id.driver ==> gpu::matches_token(token, id),
        id.pci_vendor matches Some(v) ==> gpu::hex32(text::without_0x(token)) == Some(v)
            ==> gpu::matches_token(token, id),
        id.pci_vendor == Some(0x10deu32) && token == "nvidia"@ ==> gpu::matches_token(token, id),
        id.pci_vendor == Some(0x1002u32) && (token == "amd"@ || token == "ati"@)
            ==> gpu::matches_token(token, id),
        id.pci_vendor == Some(0x1022u32) && token == "amd"@ ==> gpu::matches_token(token, id),
        id.pci_vendor == Some(0x8086u32) && token == "intel"@ ==> gpu::matches_token(token, id),
        0 <= k < id.compatibles.len() && text::opens_with(
            id.compatibles[k],
            gpu::of_prefix(token) + seq![','],
        ) ==> gpu::matches_token(token, id),
        gpu::matches_token(token, id) && id.driver.len() == 0 && id.pci_vendor is None
            ==> id.compatibles.len() > 0,
        id.driver.len() > 0 && token != id.driver && id.pci_vendor is None && id.compatibles.len()
            == 0 ==> !gpu::matches_token(token, id),
{
    reveal_strlit("nvidia");
    reveal_strlit("amd");
    reveal_strlit("ati");
    reveal_strlit("intel");
    assert("amd"@[0] != "nvidia"@[0]);
    assert("ati"@[1] != "amd"@[1]);
    assert("ati"@[0] != "nvidia"@[0]);
    assert("intel"@[0] != "nvidia"@[0]);
    assert("intel"@[0] != "amd"@[0]);
    assert("intel"@[0] != "ati"@[0]);
    let nvidia: Seq<u32> = seq![0x10de, 0x12d2];
    let amd: Seq<u32> = seq![0x1002, 0x1022];
    let ati: Seq<u32> = seq![0x1002];
    let intel: Seq<u32> = seq![0x8086, 0x8087];
    assert(nvidia[0] == 0x10de && amd[0] == 0x1002 && amd[1] == 0x1022 && ati[0] == 0x1002
        && intel[0] == 0x8086);
    assert(gpu::of_prefix(token).push(',') =~= gpu::of_prefix(token) + seq![',']);
}

/// NVENC is for NVIDIA's driver and for one that is not known.
pub proof fn nvenc_is_for_nvidia(driver: Seq<char>, a: Seq<char>, b: Seq<char>)
    ensures
        gpu::selects_nvenc(seq![]),
        driver == a + "nvidia"@ + b ==> gpu::selects_nvenc(driver),
        driver.len() > 0 && driver.len() < 6 ==> !gpu::selects_nvenc(driver),
{
    reveal_strlit("nvidia");
    if driver == a + "nvidia"@ + b {
        assert(driver.subrange(a.len() as int, a.len() as int + "nvidia"@.len()) =~= "nvidia"@);
        assert(text::stands_at(driver, "nvidia"@, a.len() as int));
    }
}

/// A request that says no asks for no GPU, one that says yes for any, any other for a card of that
/// name.
pub proof fn requests_say_yes_no_or_which(value: Seq<char>)
    ensures
        value == ""@ || value == "false"@ || value == "0"@ || value == "off"@ || value == "no"@
            <==> gpu::auto_gpu(value) is None,
        gpu::auto_gpu(value) matches Some(Some(t)) ==> t == value,
        value == "true"@ || value == "1"@ || value == "on"@ || value == "yes"@ <==> gpu::auto_gpu(
            value,
        ) == Some(None::<Seq<char>>),
{
    reveal_strlit("");
    reveal_strlit("false");
    reveal_strlit("0");
    reveal_strlit("off");
    reveal_strlit("no");
    reveal_strlit("true");
    reveal_strlit("1");
    reveal_strlit("on");
    reveal_strlit("yes");
    assert(""@.len() == 0 && "false"@.len() == 5 && "0"@.len() == 1 && "off"@.len() == 3 && "no"@.len()
        == 2 && "true"@.len() == 4 && "1"@.len() == 1 && "on"@.len() == 2 && "yes"@.len() == 3);
    assert("0"@[0] == '0' && "1"@[0] == '1' && "no"@[0] == 'n' && "on"@[0] == 'o' && "off"@[0] == 'o'
        && "yes"@[0] == 'y');
}

/// The card chosen answers the request and has the lowest number of those that do; its node is the
/// first usable render node of its own.
pub proof fn the_first_card_that_answers_is_chosen(cards: Seq<Card>, token: Option<&str>, i: int, j: int)
    requires
        gpu::chosen(cards, token, i),
        0 <= j < cards.len(),
        gpu::card_number(cards[j].name@) is Some,
        gpu::first_node(cards[j].nodes@, 0) is Some,
        token is None,
    ensures
        gpu::card_number(cards[i].name@) is Some,
        gpu::card_number(cards[i].name@)->0 <= gpu::card_number(cards[j].name@)->0,
        gpu::first_node(cards[i].nodes@, 0) is Some,
{
    assert(gpu::answers(cards[j], token));
}

/// A card's node is the first of its names that is a render node's and usable.
pub proof fn nodes_are_the_first_usable(nodes: Seq<(String, bool)>, from: int)
    requires
        0 <= from <= nodes.len(),
    ensures
        match gpu::first_node(nodes, from) {
            Some(n) => exists|i: int|
                from <= i < nodes.len() && (#[trigger] nodes[i]).0@ == n && nodes[i].1
                    && text::opens_with(n, "renderD"@) && forall|j: int|
                    from <= j < i ==> !((#[trigger] nodes[j]).1 && text::opens_with(
                        nodes[j].0@,
                        "renderD"@,
                    )),
            None => forall|j: int|
                from <= j < nodes.len() ==> !((#[trigger] nodes[j]).1 && text::opens_with(
                    nodes[j].0@,
                    "renderD"@,
                )),
        },
    decreases nodes.len() - from,
{
    if from < nodes.len() {
        if gpu::names_render_node(nodes[from].0@) && nodes[from].1 {
            assert(nodes[from].0@ == gpu::first_node(nodes, from)->0);
        } else {
            nodes_are_the_first_usable(nodes, from + 1);
        }
    }
}

/// An answer is rewritten only where it is a list of GPUs that came back well, of exactly that
/// list's length, from the control device where that is known; any other goes through as it is.
pub proof fn only_gpu_lists_are_rewritten(
    rc: i32,
    req: u64,
    has_arg: bool,
    cached: u64,
    device: Option<DeviceIdentity>,
    ctrl: NvRmControlParams,
)
    ensures
        ({
            let r = nvgpufilter::scrubbed(rc, req, has_arg, cached, device, ctrl);
            &&& r is Some ==> rc == 0 && has_arg && ctrl.status == 0 && ctrl.params != 0
            &&& r is Some && cached != 0 ==> (device matches Some(d) && d.character && d.rdev
                == cached)
            &&& r == Some(IdList::Attached) ==> ctrl.cmd == 0x0201 && ctrl.params_size == 128
            &&& r == Some(IdList::Probed) ==> ctrl.cmd == 0x0214 && ctrl.params_size == 256
            &&& r is Some ==> nvgpufilter::no_size(req) == nvgpufilter::no_size(0xC020_462A)
            &&& rc == 0 && req == 0xC020_462A && has_arg && cached == 0 && ctrl.status == 0
                && ctrl.params != 0 && ctrl.cmd == 0x0201 && ctrl.params_size == 128 ==> r == Some(
                IdList::Attached,
            )
            &&& rc == 0 && req == 0xC020_462A && has_arg && cached == 0 && ctrl.status == 0
                && ctrl.params != 0 && ctrl.cmd == 0x0214 && ctrl.params_size == 256 ==> r == Some(
                IdList::Probed,
            )
        }),
{
}

/// The ids that are kept are those said to be, in their order.
pub proof fn visible_ids_are_kept(ids: Seq<u32>, keep: Seq<bool>, n: int, k: int)
    requires
        0 <= k < n <= ids.len(),
        keep.len() >= n,
    ensures
        keep[k] ==> nvgpufilter::kept(ids, keep, n).contains(ids[k]),
        (forall|i: int| 0 <= i < n ==> #[trigger] keep[i]) ==> nvgpufilter::kept(ids, keep, n)
            == ids.take(n),
        (forall|i: int| 0 <= i < n ==> !#[trigger] keep[i]) ==> nvgpufilter::kept(ids, keep, n).len()
            == 0,
    decreases n,
{
    let all = nvgpufilter::kept(ids, keep, n);
    let fewer = nvgpufilter::kept(ids, keep, n - 1);
    if n > 1 {
        visible_ids_are_kept(
            ids,
            keep,
            n - 1,
            if k < n - 1 {
                k
            } else {
                0
            },
        );
    }
    if keep[k] {
        if k == n - 1 {
            assert(all[fewer.len() as int] == ids[k]);
        } else {
            let at = choose|at: int| 0 <= at < fewer.len() && fewer[at] == ids[k];
            assert(all[at] == ids[k]);
        }
    }
    if forall|i: int| 0 <= i < n ==> #[trigger] keep[i] {
        assert(keep[n - 1]);
        assert(n == 1 ==> fewer =~= ids.take(0));
        assert(all =~= ids.take(n));
    }
}

/// A GPU id names the device on its bus: its second byte is the bus, in any domain.
pub proof fn ids_name_their_bus(gpu_id: u32, domain: u32)
    ensures
        nvgpufilter::names_gpu(gpu_id, domain, (gpu_id / 0x100 % 0x100) as u32),
{
    assert((gpu_id >> 8) & 0xFF == gpu_id / 0x100 % 0x100) by (bit_vector);
}

/// A mapping's letters spell its protection: one to read, two to write, four to run.
pub proof fn letters_spell_the_protection(r: bool, w: bool, x: bool)
    ensures
        ({
            let perms = seq![
                if r {
                    'r'
                } else {
                    '-'
                },
                if w {
                    'w'
                } else {
                    '-'
                },
                if x {
                    'x'
                } else {
                    '-'
                },
                'p',
            ];
            nvgpufilter::prot_of(perms) == (if r {
                1int
            } else {
                0
            }) + (if w {
                2int
            } else {
                0
            }) + (if x {
                4int
            } else {
                0
            })
        }),
{
}

/// A page's protection is that of the first mapping that holds its address; where none does, it is
/// not known.
pub proof fn pages_lie_in_their_mapping(lines: Seq<Seq<char>>, addr: u64, k: int, from: int)
    requires
        0 <= from <= k < lines.len(),
        nvgpufilter::mapping(lines[k]) matches Some((lo, hi, perms)) && lo <= addr < hi,
        forall|j: int|
            from <= j < k ==> !(nvgpufilter::mapping(#[trigger] lines[j]) matches Some((lo, hi, perms))
                && lo <= addr < hi),
    ensures
        nvgpufilter::mapping(lines[k]) matches Some((lo, hi, perms)) ==> nvgpufilter::prot_in(
            lines,
            addr,
            from,
        ) == nvgpufilter::prot_of(perms),
        nvgpufilter::prot_in(lines, addr, lines.len() as int) == -1,
    decreases k - from,
{
    if from < k {
        assert(!(nvgpufilter::mapping(lines[from]) matches Some((lo, hi, perms)) && lo <= addr
            < hi));
        pages_lie_in_their_mapping(lines, addr, k, from + 1);
    }
}

/// The slots that are repointed are the machine's own: the kinds 6 and 7 on x86-64, 1025 and 1026 on
/// AArch64, and none that exists elsewhere.
pub proof fn slots_are_the_machines_own()
    ensures
        Arch::X86_64.slots().0 == 6 && Arch::X86_64.slots().1 == 7
            || Arch::X86_64.slots().0 == 7 && Arch::X86_64.slots().1 == 6,
        Arch::Aarch64.slots().0 == 1025 && Arch::Aarch64.slots().1 == 1026
            || Arch::Aarch64.slots().0 == 1026 && Arch::Aarch64.slots().1 == 1025,
        Arch::Other.slots().0 == 0xffff_ffff && Arch::Other.slots().1 == 0xffff_ffff,
{
}

/// A dynamic section tells each of its tables by the last entry of its tag; an address below the
/// load address counts from it.
pub proof fn sections_tell_their_tables(t: DynTables, base: u64, entries: Seq<Elf64Dyn>, n: int, k: int)
    requires
        0 <= k < n <= entries.len(),
        nvgpufilter::told_by(t, base, entries, n),
        forall|j: int| k < j < n ==> (#[trigger] entries[j]).d_tag != entries[k].d_tag,
    ensures
        ({
            let v = entries[k].d_un;
            let a = if v < base {
                base + v
            } else {
                v as int
            };
            &&& entries[k].d_tag == 6 ==> t.symtab == a
            &&& entries[k].d_tag == 5 ==> t.strtab == a
            &&& entries[k].d_tag == 23 ==> t.jmprel == a
            &&& entries[k].d_tag == 2 ==> t.pltrelsz == v
            &&& entries[k].d_tag == 7 ==> t.rela == a
            &&& entries[k].d_tag == 8 ==> t.relasz == v
        }),
{
    last_entry(entries, n, k);
}

proof fn last_entry(entries: Seq<Elf64Dyn>, n: int, k: int)
    requires
        0 <= k < n <= entries.len(),
        forall|j: int| k < j < n ==> (#[trigger] entries[j]).d_tag != entries[k].d_tag,
    ensures
        nvgpufilter::last_of(entries, entries[k].d_tag, n) == Some(entries[k].d_un),
    decreases n,
{
    if k < n - 1 {
        assert(entries[n - 1].d_tag != entries[k].d_tag);
        last_entry(entries, n - 1, k);
    }
}

/// A table is walked only where it is there, holds a whole entry of 24 bytes and can be read, for
/// as many entries as it holds.
pub proof fn tables_are_walked_whole(maps: Option<&str>, addr: u64, size: u64)
    ensures
        ({
            let w = nvgpufilter::walked(maps, addr, size);
            &&& w.len() <= 1
            &&& w.len() == 1 <==> addr != 0 && size >= 24 && nvgpufilter::can_read(maps, addr)
            &&& w.len() == 1 ==> w[0].addr == addr && 24 * w[0].count <= size < 24 * w[0].count + 24
        }),
{
}

/// The host's GPUs are the entries that no dot hides, the visible ones the nodes that are there.
pub proof fn gpus_are_counted(entries: Seq<String>, present: Seq<bool>, n: int)
    requires
        0 < n <= entries.len(),
        n <= present.len(),
    ensures
        nvgpufilter::host_gpus(entries, n) == nvgpufilter::host_gpus(entries, n - 1) + if entries[n
            - 1]@.len() > 0 && entries[n - 1]@[0] == '.' {
            0int
        } else {
            1
        },
        nvgpufilter::visible_gpus(present, n) == nvgpufilter::visible_gpus(present, n - 1)
            + if present[n - 1] {
            1int
        } else {
            0
        },
        nvgpufilter::host_gpus(entries, 0) == 0 && nvgpufilter::visible_gpus(present, 0) == 0,
{
}

/// A colour under straight alpha is the premultiplied one divided by the alpha, to half a step, and
/// full at most; a transparent pixel has none, and an opaque one keeps its own. The alpha stays.
#[verifier::spinoff_prover]
#[verifier::rlimit(40)]
pub proof fn colours_are_divided_by_alpha(px: Seq<u8>, k: int)
    requires
        px.len() == 4,
        0 <= k < 4,
    ensures
        px[3] == 0 ==> pixels::unpremultiplied(px, k) == 0,
        px[3] == 255 ==> pixels::unpremultiplied(px, k) == px[k],
        k == 3 ==> pixels::unpremultiplied(px, k) == px[3],
        k < 3 && px[k] <= px[3] && 0 < px[3] ==> {
            let (v, a) = (pixels::unpremultiplied(px, k) as int, px[3] as int);
            -a <= 2 * (v * a) - 510 * px[k] <= a
        },
        k < 3 && 0 < px[3] < 255 && px[k] > px[3] ==> pixels::unpremultiplied(px, k) == 255,
{
    let a = px[3] as int;
    if k < 3 && a > 0 {
        let n = px[k] * 255 + a / 2;
        let q = n / a;
        vstd::arithmetic::div_mod::lemma_fundamental_div_mod(n, a);
        vstd::arithmetic::div_mod::lemma_mod_bound(n, a);
        assert(a * q == q * a) by (nonlinear_arith);
        if px[k] <= px[3] {
            assert(q <= 255) by (nonlinear_arith)
                requires
                    a * q <= n,
                    n <= a * 255 + a / 2,
                    a > 0,
            ;
            if a == 255 {
                assert(2 * (px[k] as int * a) == 510 * px[k]) by (nonlinear_arith)
                    requires
                        a == 255,
                ;
            }
        } else {
            assert(q >= 255) by (nonlinear_arith)
                requires
                    a * q + a > n,
                    n >= (a + 1) * 255,
                    a > 0,
            ;
        }
    }
}

/// Turning the colour order around exchanges the first and the third byte of every pixel, and
/// leaves the second and the fourth.
pub proof fn red_and_blue_change_places(data: Seq<u8>, p: int)
    requires
        0 <= p,
        4 * p + 3 < data.len(),
    ensures
        pixels::exchanged(data, 4 * p) == data[4 * p + 2],
        pixels::exchanged(data, 4 * p + 1) == data[4 * p + 1],
        pixels::exchanged(data, 4 * p + 2) == data[4 * p],
        pixels::exchanged(data, 4 * p + 3) == data[4 * p + 3],
        pixels::pixel_of(data, 4 * p + 1) == seq![
            data[4 * p],
            data[4 * p + 1],
            data[4 * p + 2],
            data[4 * p + 3],
        ],
{
    assert((4 * p) % 4 == 0 && (4 * p + 1) % 4 == 1 && (4 * p + 2) % 4 == 2 && (4 * p + 3) % 4 == 3);
    assert((4 * p + 1) / 4 == p);
    assert(pixels::pixel_of(data, 4 * p + 1) =~= seq![
        data[4 * p],
        data[4 * p + 1],
        data[4 * p + 2],
        data[4 * p + 3],
    ]);
}

/// Rows are copied to where they belong: byte `x` of row `y` to the same byte of the same row, by
/// the target's own stride, behind its offset; nothing between the rows, before or behind is
/// touched.
#[verifier::spinoff_prover]
#[verifier::rlimit(40)]
pub proof fn rows_are_copied_in_place(
    src: Seq<u8>,
    before: Seq<u8>,
    spec: ShmSpec,
    width: i32,
    rows: int,
    x: int,
    y: int,
)
    requires
        width > 0,
        spec.stride >= 4 * width,
        0 <= y,
        0 <= x < spec.stride,
        spec.offset >= 0,
    ensures
        y < rows && x < 4 * width ==> pixels::copied(
            src,
            before,
            spec,
            width,
            rows,
            spec.offset + y * spec.stride + x,
        ) == src[y * (4 * width) + x],
        y >= rows || x >= 4 * width ==> pixels::copied(
            src,
            before,
            spec,
            width,
            rows,
            spec.offset + y * spec.stride + x,
        ) == before[spec.offset + y * spec.stride + x],
        forall|i: int|
            i < spec.offset ==> #[trigger] pixels::copied(src, before, spec, width, rows, i)
                == before[i],
{
    let s = spec.stride as int;
    let rel = y * s + x;
    vstd::arithmetic::div_mod::lemma_fundamental_div_mod_converse(rel, s, y, x);
    assert(rel >= 0) by (nonlinear_arith)
        requires
            y >= 0,
            s >= 0,
            x >= 0,
            rel == y * s + x,
    ;
    assert(y * (width * 4) == y * (4 * width));
}

/// Rows are refused where the source has too few, the target is smaller, or its layout cannot hold
/// them; else they are taken.
pub proof fn rows_are_refused_for_a_reason(
    src: Seq<u8>,
    len: int,
    spec: ShmSpec,
    width: i32,
    height: i32,
)
    requires
        width > 0,
        height > 0,
    ensures
        ({
            let r = pixels::shm_refusal(src, len, spec, width, height);
            let short = src.len() < (4 * width) * height;
            let small = spec.width < width || spec.height < height;
            let cramped = spec.stride < 4 * width || len < spec.offset + spec.stride * height;
            &&& r is None <==> !short && !small && !cramped
            &&& short ==> r == Some(ShmError::Source)
            &&& !short && small ==> r == Some(ShmError::Small)
            &&& !short && !small && cramped ==> r == Some(ShmError::Layout)
        }),
{
    assert((width * 4) * height == (4 * width) * height);
}

/// An event is 24 bytes: no time, its kind, its code and its value, least significant byte first.
#[verifier::spinoff_prover]
#[verifier::rlimit(40)]
pub proof fn events_read_back(kind: u16, code: u16, value: i32)
    ensures
        ({
            let e = uinput::event_bytes(kind, code, value);
            &&& e.len() == 24
            &&& forall|i: int| 0 <= i < 16 ==> #[trigger] e[i] == 0
            &&& e[16] + e[17] * 0x100 == kind
            &&& e[18] + e[19] * 0x100 == code
            &&& e[20] + e[21] * 0x100 + e[22] * 0x1_0000 + e[23] * 0x100_0000 == if value >= 0 {
                value as int
            } else {
                value + 0x1_0000_0000
            }
        }),
{
    let e = uinput::event_bytes(kind, code, value);
    let v = uinput::bits(value);
    let (k, c, w) = (bytes::le16(kind), bytes::le16(code), bytes::le32(v));
    assert(e[16] == k[0] && e[17] == k[1] && e[18] == c[0] && e[19] == c[1]);
    assert(e[20] == w[0] && e[21] == w[1] && e[22] == w[2] && e[23] == w[3]);
    assert(w[0] + w[1] * 0x100 + w[2] * 0x1_0000 + w[3] * 0x100_0000 == v) by {
        bytes::le32_reads_back(v);
    }
}

/// A device's setup is its identity and its name, cut to leave a closing zero.
#[verifier::spinoff_prover]
#[verifier::rlimit(40)]
pub proof fn setups_read_back(name: Seq<u8>, product: u16, i: int)
    requires
        0 <= i < 80,
    ensures
        ({
            let s = uinput::setup_bytes(name, product);
            &&& s.len() == 92
            &&& s[0] + s[1] * 0x100 == 6 && s[2] + s[3] * 0x100 == 0x1d6b
            &&& s[4] + s[5] * 0x100 == product
            &&& s[6] == 1 && s[7] == 0
            &&& i < 79 && i < name.len() ==> s[8 + i] == name[i]
            &&& i >= name.len() || i == 79 ==> s[8 + i] == 0
            &&& s[88] == 0 && s[89] == 0 && s[90] == 0 && s[91] == 0
        }),
{
}

/// An absolute axis is declared over its whole range from zero.
#[verifier::spinoff_prover]
#[verifier::rlimit(40)]
pub proof fn axes_read_back(code: u16)
    ensures
        ({
            let s = uinput::abs_setup_bytes(code);
            &&& s.len() == 28
            &&& s[0] + s[1] * 0x100 == code
            &&& forall|i: int| 2 <= i < 12 ==> #[trigger] s[i] == 0
            &&& s[12] + s[13] * 0x100 + s[14] * 0x1_0000 + s[15] * 0x100_0000 == 65_535
            &&& forall|i: int| 16 <= i < 28 ==> #[trigger] s[i] == 0
        }),
{
}

/// A pointer is set up with its buttons, both motions, both wheels and both axes; a keyboard with
/// every key below the buttons and no button.
pub proof fn devices_carry_their_codes(code: u16)
    requires
        1 <= code < 0x100,
    ensures
        uinput::keyboard_bits().contains(
            uinput::RequestView::Value { request: 0x4004_5565, value: code as u64 },
        ),
        uinput::keyboard_bits().len() == 256,
        forall|i: int|
            0 <= i < uinput::keyboard_bits().len() ==> ((
            #[trigger] uinput::keyboard_bits()[i]) matches uinput::RequestView::Value {
                request,
                value,
            } && value < 0x100),
{
    let k = uinput::keyboard_bits();
    assert(k[code as int] == (uinput::RequestView::Value {
        request: 0x4004_5565,
        value: code as u64,
    }));
}

/// A primary output without a size of its own is 1024 by 768.
pub proof fn primaries_have_a_size(width: i32, height: i32)
    ensures
        width > 0 ==> bring_up::primary_size(width, height).0 == width,
        height > 0 ==> bring_up::primary_size(width, height).1 == height,
        width <= 0 ==> bring_up::primary_size(width, height).0 == 1024,
        height <= 0 ==> bring_up::primary_size(width, height).1 == 768,
{
}

/// A process's pages are the second number of its line.
pub proof fn pages_are_the_second_number(a: nat, b: nat, rest: Seq<char>)
    requires
        b <= u64::MAX,
        rest.len() > 0,
        text::white(rest[0]),
    ensures
        process::resident_pages(text::decimal(a) + seq![' '] + text::decimal(b) + rest) == Some(b),
{
    let s = text::decimal(a) + seq![' '] + text::decimal(b) + rest;
    let tail = seq![' '] + text::decimal(b) + rest;
    let (da, db) = (text::decimal(a), text::decimal(b));
    text::decimals_read_back(a);
    text::decimals_read_back(b);
    digits_are_black(a);
    digits_are_black(b);
    assert(s =~= da + tail);
    words_are_told_by_white(da, tail);
    assert(tail[0] == ' ');
    let more = db + rest;
    assert(tail.skip(1) =~= more);
    words_are_told_by_white(db, rest);
    assert(more[0] == db[0]);
    assert(text::trimmed_start(tail) == text::trimmed_start(more));
    assert(text::first_word(tail) == text::first_word(more));
    assert(db[0] != '+');
}

proof fn digits_are_black(n: nat)
    ensures
        text::decimal(n).len() > 0,
        forall|i: int|
            0 <= i < text::decimal(n).len() ==> '0' <= #[trigger] text::decimal(n)[i] <= '9',
    decreases n,
{
    if n >= 10 {
        digits_are_black(n / 10);
        let d = text::decimal(n);
        assert(d == text::decimal(n / 10).push(text::digit_char(n % 10)));
        assert forall|i: int| 0 <= i < d.len() implies '0' <= #[trigger] d[i] <= '9' by {
            if i < d.len() - 1 {
                assert(d[i] == text::decimal(n / 10)[i]);
            }
        }
    }
}

/// The first word of a text is what stands ahead of the first white space, and the rest is the rest.
pub proof fn words_are_told_by_white(word: Seq<char>, rest: Seq<char>)
    requires
        word.len() > 0,
        forall|i: int| 0 <= i < word.len() ==> !text::white(#[trigger] word[i]),
        rest.len() > 0 ==> text::white(rest[0]),
    ensures
        text::first_word(word + rest) == Some((word, rest)),
{
    let s = word + rest;
    assert(s[0] == word[0]);
    assert(text::trimmed_start(s) == s);
    word_ends(word, rest);
    assert(s.take(word.len() as int) =~= word);
    assert(s.skip(word.len() as int) =~= rest);
}

proof fn word_ends(word: Seq<char>, rest: Seq<char>)
    requires
        forall|i: int| 0 <= i < word.len() ==> !text::white(#[trigger] word[i]),
        rest.len() > 0 ==> text::white(rest[0]),
    ensures
        text::word_end(word + rest) == word.len(),
    decreases word.len(),
{
    let s = word + rest;
    if word.len() == 0 {
        assert(s =~= rest);
    } else {
        assert(s[0] == word[0]);
        assert(s.skip(1) =~= word.skip(1) + rest);
        assert forall|i: int| 0 <= i < word.skip(1).len() implies !text::white(
            #[trigger] word.skip(1)[i],
        ) by {
            assert(word.skip(1)[i] == word[i + 1]);
        }
        word_ends(word.skip(1), rest);
    }
}

/// Trimming takes the white space from both ends and nothing else: what begins and ends with a
/// black character comes out of any white space around it.
pub proof fn trimming_takes_the_white_around(a: Seq<char>, s: Seq<char>, b: Seq<char>)
    requires
        forall|i: int| 0 <= i < a.len() ==> text::white(#[trigger] a[i]),
        forall|i: int| 0 <= i < b.len() ==> text::white(#[trigger] b[i]),
        s.len() > 0,
        !text::white(s[0]),
        !text::white(s[s.len() - 1]),
    ensures
        text::trimmed(a + s + b) == s,
{
    assert(a + s + b =~= a + (s + b));
    front_is_taken(a, s + b);
    back_is_taken(s, b);
}

proof fn front_is_taken(a: Seq<char>, t: Seq<char>)
    requires
        forall|i: int| 0 <= i < a.len() ==> text::white(#[trigger] a[i]),
        t.len() > 0,
        !text::white(t[0]),
    ensures
        text::trimmed_start(a + t) == t,
    decreases a.len(),
{
    let s = a + t;
    if a.len() == 0 {
        assert(s =~= t);
    } else {
        assert(s[0] == a[0]);
        assert(s.skip(1) =~= a.skip(1) + t);
        assert forall|i: int| 0 <= i < a.skip(1).len() implies text::white(
            #[trigger] a.skip(1)[i],
        ) by {
            assert(a.skip(1)[i] == a[i + 1]);
        }
        front_is_taken(a.skip(1), t);
    }
}

proof fn back_is_taken(t: Seq<char>, b: Seq<char>)
    requires
        forall|i: int| 0 <= i < b.len() ==> text::white(#[trigger] b[i]),
        t.len() > 0,
        !text::white(t[t.len() - 1]),
    ensures
        text::trimmed_end(t + b) == t,
    decreases b.len(),
{
    let s = t + b;
    if b.len() == 0 {
        assert(s =~= t);
    } else {
        assert(s.last() == b[b.len() - 1]);
        assert(s.drop_last() =~= t + b.drop_last());
        back_is_taken(t, b.drop_last());
    }
}

/// A text splits where its separators stand: a part without one, ahead of one, comes first, and the
/// rest splits on.
pub proof fn texts_split_at_their_separators(
    head: Seq<char>,
    sep: char,
    seps: Seq<char>,
    tail: Seq<char>,
)
    requires
        seps.contains(sep),
        forall|i: int| 0 <= i < head.len() ==> !seps.contains(#[trigger] head[i]),
    ensures
        text::parts(head + seq![sep] + tail, seps)[0] == head,
        text::parts(head + seq![sep] + tail, seps).len() >= 2,
        text::parts(head, seps) == seq![head],
{
    let s = head + seq![sep] + tail;
    separator_found(s, seps, 0, head.len() as int);
    assert(s.subrange(0, head.len() as int) =~= head);
    assert(text::parts_from(s, seps, head.len() as int + 1).len() >= 1) by {
        some_part(s, seps, head.len() as int + 1);
    }
    none_to_find(head, seps, 0);
    assert(head.subrange(0, head.len() as int) =~= head);
}

proof fn some_part(s: Seq<char>, seps: Seq<char>, from: int)
    requires
        0 <= from <= s.len(),
    ensures
        text::parts_from(s, seps, from).len() >= 1,
{
}

proof fn separator_found(s: Seq<char>, seps: Seq<char>, from: int, at: int)
    requires
        0 <= from <= at < s.len(),
        seps.contains(s[at]),
        forall|i: int| from <= i < at ==> !seps.contains(#[trigger] s[i]),
    ensures
        text::next_separator(s, seps, from) == at,
    decreases at - from,
{
    if from < at {
        assert(!seps.contains(s[from]));
        separator_found(s, seps, from + 1, at);
    }
}

proof fn none_to_find(s: Seq<char>, seps: Seq<char>, from: int)
    requires
        0 <= from <= s.len(),
        forall|i: int| from <= i < s.len() ==> !seps.contains(#[trigger] s[i]),
    ensures
        text::next_separator(s, seps, from) == s.len(),
    decreases s.len() - from,
{
    if from < s.len() {
        assert(!seps.contains(s[from]));
        none_to_find(s, seps, from + 1);
    }
}

/// Digits count what they show, in either case, as far as the radix goes.
pub proof fn digits_count_what_they_show(c: char)
    ensures
        '0' <= c <= '9' ==> text::digit(c, 10) == Some((c as int - 48) as nat),
        'a' <= c <= 'f' ==> text::digit(c, 16) == Some((c as int - 87) as nat),
        'A' <= c <= 'F' ==> text::digit(c, 16) == Some((c as int - 55) as nat),
        !('0' <= c <= '9') ==> text::digit(c, 10) is None,
        !('0' <= c <= '9') && !('a' <= c <= 'f') && !('A' <= c <= 'F') ==> text::digit(c, 16) is None,
{
}

/// A number reads back from its decimal, with a sign or without, as far as it fits.
pub proof fn numbers_read_back(n: nat, max: nat)
    ensures
        text::unsigned(text::decimal(n), 10, max) == if n <= max {
            Some(n)
        } else {
            None
        },
        n <= 0x7fff_ffff ==> text::signed32(text::decimal(n)) == Some(n as int),
        0 < n <= 0x8000_0000 ==> text::signed32(text::signed_decimal(-(n as int))) == Some(-(n as int)),
        text::unsigned(seq![], 10, max) is None,
{
    text::decimals_read_back(n);
    digits_are_black(n);
    let d = text::decimal(n);
    assert(d[0] != '+' && d[0] != '-');
    if n > 0 {
        let s = text::signed_decimal(-(n as int));
        assert(s == seq!['-'] + d);
        assert(s.skip(1) =~= d);
    }
}

/// A card's line tells its driver, its vendor or what it is compatible with, and every other line
/// nothing; what other lines told stays.
pub proof fn lines_tell_one_thing_each(id: IdentityView, line: Seq<char>, rest: Seq<char>)
    ensures
        ({
            let d = gpu::with_line(id, "DRIVER="@ + rest);
            &&& d.driver == gpu::lowercase(text::trimmed(rest))
            &&& d.pci_vendor == id.pci_vendor && d.compatibles == id.compatibles
        }),
        ({
            let d = gpu::with_line(id, line);
            &&& !text::opens_with(line, "DRIVER="@) ==> d.driver == id.driver
            &&& d.compatibles == id.compatibles || d.compatibles.len() == id.compatibles.len() + 1
            &&& !text::opens_with(line, "DRIVER="@) && !text::opens_with(line, "PCI_ID="@)
                ==> d.pci_vendor == id.pci_vendor
        }),
{
    let l = "DRIVER="@ + rest;
    assert(l.take("DRIVER="@.len() as int) =~= "DRIVER="@);
    assert(l.skip("DRIVER="@.len() as int) =~= rest);
}

/// What a card's event file tells comes first; its other files tell only what that leaves open.
pub proof fn event_files_come_first(f: gpu::CardFiles, u: String)
    requires
        f.uevent == Some(u),
    ensures
        ({
            let lines = text::lines_of(u@);
            let told = gpu::told(lines, lines.len() as int);
            let id = gpu::identity_of(f);
            &&& told.driver.len() > 0 ==> id.driver == told.driver
            &&& told.driver.len() == 0 && f.driver is None ==> id.driver.len() == 0
            &&& told.driver.len() == 0 ==> (f.driver matches Some(d) ==> id.driver
                == gpu::lowercase(d@))
            &&& told.pci_vendor is Some ==> id.pci_vendor == told.pci_vendor
        }),
{
}

/// A card's number is the one its name ends in.
pub proof fn cards_are_numbered(n: nat)
    requires
        n <= 0xffff_ffff,
    ensures
        gpu::card_number("card"@ + text::decimal(n)) == Some(n),
{
    let name = "card"@ + text::decimal(n);
    assert(name.take("card"@.len() as int) =~= "card"@);
    assert(name.skip("card"@.len() as int) =~= text::decimal(n));
    numbers_read_back(n, 0xffff_ffff);
}

/// A software renderer is told by a name it holds, wherever that stands.
pub proof fn software_is_told_by_name(a: Seq<char>, b: Seq<char>)
    ensures
        gpu::software_name(a + "llvmpipe"@ + b),
        gpu::software_name(a + "softpipe"@ + b),
        gpu::software_name(a + "swrast"@ + b),
        gpu::software_name(a + "software rasterizer"@ + b),
        !gpu::software_name(seq![]),
{
    stands_inside(a, "llvmpipe"@, b);
    stands_inside(a, "softpipe"@, b);
    stands_inside(a, "swrast"@, b);
    stands_inside(a, "software rasterizer"@, b);
    reveal_strlit("llvmpipe");
    reveal_strlit("softpipe");
    reveal_strlit("swrast");
    reveal_strlit("software rasterizer");
}

proof fn stands_inside(a: Seq<char>, part: Seq<char>, b: Seq<char>)
    ensures
        text::holds(a + part + b, part),
{
    let s = a + part + b;
    assert(s.subrange(a.len() as int, a.len() as int + part.len()) =~= part);
    assert(text::stands_at(s, part, a.len() as int));
}

/// A text is held exactly where it stands somewhere, character by character.
pub proof fn texts_are_held_where_they_stand(s: Seq<char>, part: Seq<char>, at: int)
    ensures
        0 <= at && at + part.len() <= s.len() && (forall|i: int|
            0 <= i < part.len() ==> s[at + i] == #[trigger] part[i]) ==> text::holds(s, part),
        part.len() > s.len() ==> !text::holds(s, part),
        part.len() <= s.len() && (forall|i: int| 0 <= i < part.len() ==> s[i] == #[trigger] part[i])
            <==> text::opens_with(s, part),
{
    if 0 <= at && at + part.len() <= s.len() && (forall|i: int|
        0 <= i < part.len() ==> s[at + i] == #[trigger] part[i]) {
        assert(s.subrange(at, at + part.len()) =~= part);
        assert(text::stands_at(s, part, at));
    }
    if part.len() <= s.len() && (forall|i: int| 0 <= i < part.len() ==> s[i] == #[trigger] part[i]) {
        assert(s.take(part.len() as int) =~= part);
    }
    if text::opens_with(s, part) {
        assert forall|i: int| 0 <= i < part.len() implies s[i] == #[trigger] part[i] by {
            assert(s.take(part.len() as int)[i] == s[i]);
        }
    }
}

/// A line ends at its feed, and loses a carriage return ahead of it; the rest of the text follows.
pub proof fn lines_end_at_their_feed(line: Seq<char>, rest: Seq<char>)
    requires
        forall|i: int| 0 <= i < line.len() ==> #[trigger] line[i] != '\n',
        line.len() > 0 ==> line[line.len() - 1] != '\r',
    ensures
        text::lines_of(line + seq!['\n'] + rest)[0] == line,
        text::lines_of(line + seq!['\r', '\n'] + rest)[0] == line,
        line.len() > 0 ==> text::lines_of(line) == seq![line],
        text::lines_of(seq![]).len() == 0,
{
    let feed = seq!['\n'];
    let a = line + seq!['\n'] + rest;
    let b = line + seq!['\r', '\n'] + rest;
    let n = line.len() as int;
    assert(feed[0] == '\n');
    assert forall|c: char| #[trigger] feed.contains(c) implies c == '\n' by {}
    assert(feed.contains(a[n]));
    separator_found(a, feed, 0, n);
    assert(a.subrange(0, n) =~= line);
    assert(b[n] == '\r');
    assert(feed.contains(b[n + 1]));
    separator_found(b, feed, 0, n + 1);
    assert(b.subrange(0, n + 1) =~= line.push('\r'));
    assert(line.push('\r').drop_last() =~= line);
    none_to_find(line, feed, 0);
    assert(line.subrange(0, n) =~= line);
}

/// A pointer carries its three buttons, both motions, both wheels and both axes, and a device is
/// created behind its setup, last of all.
pub proof fn pointers_carry_buttons_motions_and_axes(name: Seq<u8>, product: u16)
    ensures
        ({
            let p = uinput::pointer_bits();
            let value = |request: u64, value: u64| uinput::RequestView::Value { request, value };
            &&& p.contains(value(0x4004_5564, 1)) && p.contains(value(0x4004_5564, 2))
                && p.contains(value(0x4004_5564, 3))
            &&& p.contains(value(0x4004_5565, 0x110)) && p.contains(value(0x4004_5565, 0x111))
                && p.contains(value(0x4004_5565, 0x112))
            &&& p.contains(value(0x4004_5566, 0)) && p.contains(value(0x4004_5566, 1))
                && p.contains(value(0x4004_5566, 8)) && p.contains(value(0x4004_5566, 6))
            &&& p.contains(value(0x4004_5567, 0)) && p.contains(value(0x4004_5567, 1))
            &&& p.len() == 14
        }),
        ({
            let c = uinput::creation(name, product, uinput::pointer_bits());
            &&& c.len() == 17
            &&& c[16] == (uinput::RequestView::Plain { request: 0x5501 })
            &&& c[15] == (uinput::RequestView::Data {
                request: 0x405c_5503,
                bytes: uinput::setup_bytes(name, product),
            })
        }),
{
    let p = uinput::pointer_bits();
    assert(p.len() == 14);
    assert(p[0] == (uinput::RequestView::Value { request: 0x4004_5564, value: 1 }));
    assert(p[1] == (uinput::RequestView::Value { request: 0x4004_5564, value: 2 }));
    assert(p[2] == (uinput::RequestView::Value { request: 0x4004_5564, value: 3 }));
    assert(p[3] == (uinput::RequestView::Value { request: 0x4004_5565, value: 0x110 }));
    assert(p[4] == (uinput::RequestView::Value { request: 0x4004_5565, value: 0x111 }));
    assert(p[5] == (uinput::RequestView::Value { request: 0x4004_5565, value: 0x112 }));
    assert(p[6] == (uinput::RequestView::Value { request: 0x4004_5566, value: 0 }));
    assert(p[7] == (uinput::RequestView::Value { request: 0x4004_5566, value: 1 }));
    assert(p[8] == (uinput::RequestView::Value { request: 0x4004_5566, value: 8 }));
    assert(p[9] == (uinput::RequestView::Value { request: 0x4004_5566, value: 6 }));
    assert(p[10] == (uinput::RequestView::Value { request: 0x4004_5567, value: 0 }));
    assert(p[12] == (uinput::RequestView::Value { request: 0x4004_5567, value: 1 }));
}

/// An address can be read where its mapping says so, or nothing is known of it; and relocations are
/// walked only behind symbols and names that can be read, the lazily bound ones first.
pub proof fn only_readable_tables_are_walked(
    maps: Option<&str>,
    addr: u64,
    perms: Seq<char>,
    t: DynTables,
    page: i64,
)
    ensures
        nvgpufilter::page_protection(None, addr) == -1,
        nvgpufilter::can_read(None, addr),
        nvgpufilter::page_protection(maps, addr) == nvgpufilter::prot_of(perms) ==> (
        nvgpufilter::can_read(maps, addr) <==> perms.len() > 0 && perms[0] == 'r'),
        t.symtab == 0 || t.strtab == 0 || page <= 0 ==> nvgpufilter::tables_to_walk(maps, t, page).len()
            == 0,
        !nvgpufilter::can_read(maps, t.symtab) || !nvgpufilter::can_read(maps, t.strtab)
            ==> nvgpufilter::tables_to_walk(maps, t, page).len() == 0,
        t.symtab != 0 && t.strtab != 0 && page > 0 && nvgpufilter::can_read(maps, t.symtab)
            && nvgpufilter::can_read(maps, t.strtab) ==> nvgpufilter::tables_to_walk(maps, t, page)
            == nvgpufilter::walked(maps, t.jmprel, t.pltrelsz) + nvgpufilter::walked(
            maps,
            t.rela,
            t.relasz,
        ),
{
}

/// A GPU's minor is the number on the first line that tells one; where none does it is not known.
pub proof fn minors_are_told_by_their_line(lines: Seq<Seq<char>>, n: nat, from: int, k: int)
    requires
        0 <= from <= k < lines.len(),
        n <= 0x7fff_ffff,
        lines[k] == "Device Minor:"@ + seq![' '] + text::decimal(n),
        forall|j: int|
            from <= j < k ==> !text::opens_with(#[trigger] lines[j], "Device Minor:"@),
    ensures
        nvgpufilter::minor_in(lines, from) == n,
        nvgpufilter::minor_in(lines, lines.len() as int) == -1,
    decreases k - from,
{
    if from < k {
        assert(!text::opens_with(lines[from], "Device Minor:"@));
        minors_are_told_by_their_line(lines, n, from + 1, k);
    } else {
        let key = "Device Minor:"@;
        let d = text::decimal(n);
        digits_are_black(n);
        assert(lines[k].take(key.len() as int) =~= key);
        assert(lines[k].skip(key.len() as int) =~= seq![' '] + d + seq![]);
        trimming_takes_the_white_around(seq![' '], d, seq![]);
        numbers_read_back(n, 0x7fff_ffff);
    }
}

} // verus!
