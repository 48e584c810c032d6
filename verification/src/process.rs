//! What a session tells of the process and the machine it runs on: the memory it holds and the GPU
//! it can reach.

use vstd::prelude::*;
use vstd::string::*;
use crate::gpu;
use crate::gpu::is_software_renderer;
use crate::text;
use crate::text::{chars_of, next_word, parse_unsigned, starts_with};

verus! {

/// The bytes of a page.
pub const PAGE_LEN: u64 = 4096;

/// The bytes of a block of the file system.
pub const BLOCK_LEN: u64 = 512;

/// The resident pages that a `statm` line tells: its second word.
pub open spec fn resident_pages(statm: Seq<char>) -> Option<nat> {
    match text::first_word(statm) {
        Some((_, rest)) => match text::first_word(rest) {
            Some((word, _)) => text::unsigned(word, 10, u64::MAX as nat),
            None => None,
        },
        None => None,
    }
}

/// The resident pages that a `statm` line tells.
pub fn rss_pages(statm: &str) -> (r: Option<u64>)
    ensures
        match r {
            Some(n) => resident_pages(statm@) == Some(n as nat),
            None => resident_pages(statm@) is None,
        },
{
    let line = chars_of(statm);
    match next_word(line.as_slice()) {
        Some((_, rest)) => match next_word(rest) {
            Some((word, _)) => parse_unsigned(word, 10, u64::MAX),
            None => None,
        },
        None => None,
    }
}

/// The memory the process holds, nothing where its `statm` line cannot be read.
pub fn get_process_rss_bytes(statm: Option<&str>) -> (n: u64)
    requires
        statm matches Some(s) ==> (resident_pages(s@) matches Some(p) ==> p * PAGE_LEN <= u64::MAX),
    ensures
        n == match statm {
            Some(s) => match resident_pages(s@) {
                Some(p) => p * PAGE_LEN,
                None => 0,
            },
            None => 0,
        },
{
    match statm {
        Some(s) => match rss_pages(s) {
            Some(p) => p * PAGE_LEN,
            None => 0,
        },
        None => 0,
    }
}

/// The blocks of a directory's files together.
pub open spec fn blocks_of(blocks: Seq<u64>) -> nat
    decreases blocks.len(),
{
    if blocks.len() == 0 {
        0
    } else {
        blocks_of(blocks.drop_last()) + blocks.last() as nat
    }
}

proof fn blocks_grow(blocks: Seq<u64>, i: int)
    requires
        0 <= i <= blocks.len(),
    ensures
        blocks_of(blocks.take(i)) <= blocks_of(blocks),
    decreases blocks.len(),
{
    if i < blocks.len() {
        blocks_grow(blocks.drop_last(), i);
        assert(blocks.drop_last().take(i) =~= blocks.take(i));
    } else {
        assert(blocks.take(i) =~= blocks);
    }
}

/// What a directory's files take: the blocks allocated, not the apparent sizes, so that a sparse
/// file is not told as memory anyone holds.
pub fn shm_usage_in(blocks: &[u64]) -> (n: u64)
    requires
        blocks_of(blocks@) * BLOCK_LEN <= u64::MAX,
    ensures
        n == blocks_of(blocks@) * BLOCK_LEN,
{
    let mut n: u64 = 0;
    let mut i: usize = 0;
    assert(blocks@.take(0) =~= seq![]);
    while i < blocks.len()
        invariant
            i <= blocks@.len(),
            n == blocks_of(blocks@.take(i as int)) * BLOCK_LEN,
            blocks_of(blocks@) * BLOCK_LEN <= u64::MAX,
        decreases blocks@.len() - i,
    {
        proof {
            blocks_grow(blocks@, i + 1);
            assert(blocks@.take(i + 1).drop_last() =~= blocks@.take(i as int));
        }
        n += blocks[i] * BLOCK_LEN;
        i += 1;
    }
    assert(blocks@.take(i as int) =~= blocks@);
    n
}

/// A device node that a GPU stands behind.
pub open spec fn is_gpu_node(name: Seq<char>) -> bool {
    text::opens_with(name, "renderD"@) || text::opens_with(name, "card"@)
}

/// Whether a GPU is exposed at all: by the NVIDIA control device, which answers for a driver stack
/// that was given no DRM node, or by a node under `/dev/dri`.
pub fn gpu_exposed(nvidiactl: bool, dri: &[String]) -> (b: bool)
    ensures
        b == (nvidiactl || exists|i: int| 0 <= i < dri@.len() && is_gpu_node(#[trigger] dri@[i]@)),
{
    if nvidiactl {
        return true;
    }
    let render = chars_of("renderD");
    let card = chars_of("card");
    let mut i: usize = 0;
    while i < dri.len()
        invariant
            i <= dri@.len(),
            render@ == "renderD"@,
            card@ == "card"@,
            forall|j: int| 0 <= j < i ==> !is_gpu_node(#[trigger] dri@[j]@),
        decreases dri@.len() - i,
    {
        let name = chars_of(dri[i].as_str());
        if starts_with(name.as_slice(), render.as_slice()) || starts_with(
            name.as_slice(),
            card.as_slice(),
        ) {
            assert(is_gpu_node(dri@[i as int]@));
            return true;
        }
        i += 1;
    }
    false
}

/// What bringing a render node up came to: the renderer it reaches, or the step that failed.
pub enum BringUp {
    Reached(String),
    Failed(String),
}

/// What is told of a session's GPU.
pub struct GpuProbe {
    pub node: String,
    pub accelerated: bool,
    pub renderer: String,
    /// The step that failed, empty where the session is accelerated.
    pub error: String,
}

/// What a probe tells: without a node nothing was brought up, and a node that only reaches a
/// software rasterizer is not accelerated, though its bring-up succeeds.
pub fn probe_wayland_gpu(node: Option<String>, came_to: BringUp) -> (p: GpuProbe)
    ensures
        p.accelerated == (p.error@.len() == 0),
        match node {
            None => {
                &&& p.node@ == Seq::<char>::empty()
                &&& p.renderer@ == Seq::<char>::empty()
                &&& p.error@ == "No render node"@
            },
            Some(n) => p.node == n && match came_to {
                BringUp::Reached(name) => {
                    &&& p.renderer == name
                    &&& p.error@ == if gpu::software_name(gpu::lowercase(name@)) {
                        "Software rasterizer only ("@ + name@ + ")"@
                    } else {
                        Seq::<char>::empty()
                    }
                },
                BringUp::Failed(step) => p.renderer@ == Seq::<char>::empty() && p.error == step,
            },
        },
{
    match node {
        None => {
            proof {
                reveal_strlit("No render node");
            }
            GpuProbe {
                node: String::new(),
                accelerated: false,
                renderer: String::new(),
                error: "No render node".to_owned(),
            }
        },
        Some(n) => match came_to {
            BringUp::Reached(name) => {
                if is_software_renderer(name.as_str()) {
                    let mut error = "Software rasterizer only (".to_owned();
                    error.append(name.as_str());
                    error.append(")");
                    proof {
                        reveal_strlit("Software rasterizer only (");
                    }
                    GpuProbe { node: n, accelerated: false, renderer: name, error }
                } else {
                    GpuProbe { node: n, accelerated: true, renderer: name, error: String::new() }
                }
            },
            BringUp::Failed(step) => {
                let accelerated = step.as_str().unicode_len() == 0;
                GpuProbe { node: n, accelerated, renderer: String::new(), error: step }
            },
        },
    }
}

/// A machine whose probe is accelerated reached a renderer, and not one in software.
pub proof fn acceleration_is_no_software(name: Seq<char>, error: Seq<char>)
    requires
        error == if gpu::software_name(gpu::lowercase(name)) {
            "Software rasterizer only ("@ + name + ")"@
        } else {
            Seq::<char>::empty()
        },
    ensures
        error.len() == 0 <==> !gpu::software_name(gpu::lowercase(name)),
{
    reveal_strlit("Software rasterizer only (");
}

} // verus!
