//! What is told of a stream and handed on with it: totals count what was delivered, a description
//! says what runs, a change reaches the capture it is for, and a parameter stands where its reader
//! looks for it.

use vstd::prelude::*;
use crate::bytes;
use crate::encode_loop;
use crate::encode_loop::{BuildStep, EncodeLoop, GpuEncoder};
use crate::encoders::{Codec, EncodedStripe};
use crate::gpu;
use crate::pipeline;
use crate::pipeline::{Backend, X11Pipeline};
use crate::pipewire;
use crate::report;
use crate::report::{InfoView, StreamTotals};
use crate::session::{CaptureBackend, Forward, ScreenCapture, X11Controls};
use crate::settings::RustCaptureSettings;

verus! {

/// The bytes of all stripes of a frame, one behind another.
pub proof fn stripes_are_counted_whole(stripes: Seq<EncodedStripe>, n: int)
    requires
        0 < n <= stripes.len(),
    ensures
        report::stripe_bytes(stripes, 0) == 0,
        report::stripe_bytes(stripes, n) == report::stripe_bytes(stripes, n - 1) + stripes[n
            - 1].data@.len(),
{
}

/// A delivered frame counts once, with its bytes and, where it is timed, its time: encoding from its
/// start to its end, and all of it from the capture on. Nothing delivered counts nothing.
#[verifier::spinoff_prover]
#[verifier::rlimit(40)]
pub proof fn totals_count_what_was_delivered(t: StreamTotals, stripes: Seq<EncodedStripe>)
    requires
        t.frames < u64::MAX,
        t.bytes + report::stripe_bytes(stripes, stripes.len() as int) <= u64::MAX,
        report::stripe_bytes(stripes, stripes.len() as int) >= 0,
        t.encode_ns <= 0x7fff_ffff_ffff_ffff && t.pipeline_ns <= 0x7fff_ffff_ffff_ffff,
    ensures
        ({
            let u = t.tallied(stripes);
            &&& stripes.len() == 0 ==> u == t
            &&& stripes.len() > 0 ==> {
                let g = stripes[0].timing;
                &&& u.frames == t.frames + 1
                &&& u.bytes == t.bytes + report::stripe_bytes(stripes, stripes.len() as int)
                &&& g.encode_end_ns > 0 && 0 <= g.encode_start_ns <= g.encode_end_ns ==> u.encode_ns
                    == t.encode_ns + (g.encode_end_ns - g.encode_start_ns)
                &&& g.encode_end_ns > 0 && 0 <= g.capture_ns <= g.encode_end_ns ==> u.pipeline_ns
                    == t.pipeline_ns + (g.encode_end_ns - g.capture_ns)
                &&& g.encode_end_ns <= 0 ==> u.encode_ns == t.encode_ns && u.pipeline_ns
                    == t.pipeline_ns
                &&& g.encode_end_ns > 0 && g.encode_start_ns > g.encode_end_ns ==> u.encode_ns
                    == t.encode_ns
            }
        }),
{
}

/// A description says which path is taken and why: one without a copy needs no reason, every path
/// declined leaves one behind those before, and software runs on no device.
pub proof fn descriptions_say_what_runs(
    i: InfoView,
    path: Seq<char>,
    reason: Seq<char>,
    name: Seq<char>,
    node: i32,
    codec: Seq<char>,
    stripes: usize,
    fullcolor: bool,
    full_range: bool,
)
    ensures
        ({
            let c = report::with_capture(path, true)(i);
            &&& c.capture == path && c.zero_copy && c.capture_reason.len() == 0
            &&& c.encoder == i.encoder && c.gpu == i.gpu && c.codec == i.codec
        }),
        ({
            let c = report::with_capture(path, false)(i);
            &&& c.capture == path && !c.zero_copy && c.capture_reason == i.capture_reason
        }),
        ({
            let d = report::with_declined(path, reason)(i);
            &&& i.capture_reason.len() == 0 ==> d.capture_reason == path + ": "@ + reason
            &&& i.capture_reason.len() > 0 ==> d.capture_reason == i.capture_reason + "; "@ + path
                + ": "@ + reason
            &&& d.capture == i.capture && d.zero_copy == i.zero_copy && d.encoder == i.encoder
        }),
        report::with_capture_reason(reason)(i).capture_reason == reason,
        report::with_encoder_reason(reason)(i).encoder_reason == reason,
        report::with_encoder_reason(reason)(i).capture_reason == i.capture_reason,
        ({
            let h = report::with_hardware(name, path, node)(i);
            &&& h.gpu == name && h.driver == path && h.encode_node == node && h.encoder_reason.len()
                == 0
            &&& h.capture == i.capture && h.codec == i.codec
        }),
        ({
            let s = report::with_stream((name, true), codec, stripes, fullcolor, full_range)(i);
            &&& s.encoder == name && s.hardware && s.codec == codec && s.stripes == stripes
            &&& s.fullcolor == fullcolor && s.full_range == full_range
            &&& s.gpu == i.gpu && s.driver == i.driver && s.encode_node == i.encode_node
            &&& s.capture == i.capture && s.encoder_reason == i.encoder_reason
        }),
        ({
            let s = report::with_stream((name, false), codec, stripes, fullcolor, full_range)(i);
            &&& s.encoder == name && !s.hardware && s.gpu.len() == 0 && s.driver.len() == 0
                && s.encode_node == -1
        }),
{
}

/// The encoder that is told is the one that runs: the session's own, else software's for video.
pub proof fn the_encoder_told_is_the_one_that_runs(
    s: RustCaptureSettings,
    software: Seq<char>,
    name: &str,
    hardware: bool,
)
    ensures
        report::encoder_of(s, software, Some((name, hardware))) == (name@, hardware),
        s.codec != Codec::Jpeg ==> report::encoder_of(s, software, None) == (software, false),
        report::encoder_of(s, software, None).1 == false,
{
}

/// A live change goes to the display of a Wayland capture, and into the controls of an X11 capture;
/// an idle handle takes none.
pub proof fn changes_go_where_the_capture_runs(
    h: ScreenCapture,
    change: spec_fn(X11Controls) -> X11Controls,
)
    ensures
        h.backend == CaptureBackend::Wayland ==> h.forward() == Forward::Display(h.wl_display)
            && h.with_controls(change) == h,
        h.backend != CaptureBackend::Wayland ==> h.forward() == Forward::Nowhere,
        h.backend == CaptureBackend::X11 ==> (h.controls matches Some(c) ==> h.with_controls(
            change,
        ).controls == Some(change(c)) && h.with_controls(change).backend == h.backend
            && h.with_controls(change).id == h.id),
        h.backend == CaptureBackend::Idle ==> h.with_controls(change) == h,
        h.x11_running() <==> (h.controls matches Some(c) && !c.stop),
{
}

/// A readback session is tried where hardware is, but for 4:4:4 off NVENC; and its planes are there
/// exactly where the session takes planes.
pub proof fn readback_sessions_are_tried_where_they_can_be(
    try_gpu: bool,
    fullcolor: bool,
    driver: Seq<char>,
    prior: Option<GpuEncoder>,
    l: EncodeLoop,
)
    requires
        l.wf(),
    ensures
        ({
            let step = encode_loop::first_step(try_gpu, fullcolor, driver, prior);
            let nvidia = gpu::selects_nvenc(driver);
            &&& !try_gpu ==> step == BuildStep::Done(None)
            &&& fullcolor && !nvidia ==> step == BuildStep::Done(None)
            &&& try_gpu && !fullcolor && !nvidia ==> step == BuildStep::OpenVaapi
            &&& try_gpu && nvidia && prior != Some(GpuEncoder::Nvenc) ==> step == BuildStep::OpenNvenc
            &&& try_gpu && nvidia && prior == Some(GpuEncoder::Nvenc) ==> step
                == BuildStep::Reconfigure
        }),
        l.session == Some(GpuEncoder::Nvenc) || l.session is None ==> l.planes@.len() == 0,
        l.session == Some(GpuEncoder::Vaapi { fullcolor: true }) ==> l.planes@.len() == 3 * (
        l.settings.width * l.settings.height),
        l.session matches Some(GpuEncoder::Vaapi { fullcolor: f }) ==> l.hw_fullcolor == f,
{
    assert(l.settings.width * l.settings.height >= 0) by (nonlinear_arith)
        requires
            l.settings.width >= 0,
            l.settings.height >= 0,
    ;
}

/// The chroma an X11 pipeline carries is its session's: NVENC's as asked, another's as negotiated;
/// and it runs on a GPU where its session does.
pub proof fn pipelines_carry_their_sessions_chroma(p: X11Pipeline, asked: bool)
    ensures
        p.hw matches Some(e) ==> e.backend == Backend::Nvenc ==> pipeline::carries_fullcolor(
            p.hw,
            asked,
        ) == asked,
        p.hw matches Some(e) ==> e.backend != Backend::Nvenc ==> pipeline::carries_fullcolor(
            p.hw,
            asked,
        ) == e.fullcolor,
        !asked ==> !pipeline::carries_fullcolor(None, asked),
        p.on_gpu() <==> (p.hw matches Some(e) && e.backend != Backend::Software),
{
}

/// A cell opens with its payload's length and its type, least significant byte first, holds the
/// payload, and is filled with zeros up to the next multiple of eight.
#[verifier::spinoff_prover]
#[verifier::rlimit(40)]
pub proof fn cells_stand_as_they_are_read(ty: u32, payload: Seq<u8>)
    requires
        payload.len() <= u32::MAX,
    ensures
        ({
            let c = pipewire::cell(ty, payload);
            &&& c[0] + c[1] * 0x100 + c[2] * 0x1_0000 + c[3] * 0x100_0000 == payload.len()
            &&& c[4] + c[5] * 0x100 + c[6] * 0x1_0000 + c[7] * 0x100_0000 == ty
            &&& c.subrange(8, 8 + payload.len() as int) == payload
            &&& c.len() % 8 == 0
            &&& 8 + payload.len() <= c.len() < 16 + payload.len()
            &&& forall|i: int| 8 + payload.len() <= i < c.len() ==> #[trigger] c[i] == 0
        }),
{
    let n = payload.len() as u32;
    let c = pipewire::cell(ty, payload);
    let (a, b) = (bytes::le32(n), bytes::le32(ty));
    number_of(n);
    number_of(ty);
    assert(c[0] == a[0] && c[1] == a[1] && c[2] == a[2] && c[3] == a[3]);
    assert(c[4] == b[0] && c[5] == b[1] && c[6] == b[2] && c[7] == b[3]);
    assert(c.subrange(8, 8 + payload.len() as int) =~= payload);
}

proof fn number_of(v: u32)
    ensures
        ({
            let w = bytes::le32(v);
            &&& w.len() == 4
            &&& w[0] + w[1] * 0x100 + w[2] * 0x1_0000 + w[3] * 0x100_0000 == v
        }),
{
}

/// An object is a cell of its own type, 15, that opens with the object's type and its parameter.
#[verifier::spinoff_prover]
#[verifier::rlimit(40)]
pub proof fn objects_stand_as_they_are_read(ty: u32, id: u32, props: Seq<u8>)
    requires
        8 + props.len() <= u32::MAX,
    ensures
        ({
            let o = pipewire::object_pod(ty, id, props);
            &&& o.subrange(0, 4) == bytes::le32((8 + props.len()) as u32)
            &&& o.subrange(4, 8) == bytes::le32(15)
            &&& o.subrange(8, 12) == bytes::le32(ty)
            &&& o.subrange(12, 16) == bytes::le32(id)
            &&& o.subrange(16, 16 + props.len() as int) == props
        }),
{
    let o = pipewire::object_pod(ty, id, props);
    assert(o.subrange(0, 4) =~= bytes::le32((8 + props.len()) as u32));
    assert(o.subrange(4, 8) =~= bytes::le32(15));
    assert(o.subrange(8, 12) =~= bytes::le32(ty));
    assert(o.subrange(12, 16) =~= bytes::le32(id));
    assert(o.subrange(16, 16 + props.len() as int) =~= props);
}

/// A choice tells its kind, no flags, and the length and the type of its values, and then holds
/// them.
#[verifier::spinoff_prover]
#[verifier::rlimit(40)]
pub proof fn choices_stand_as_they_are_read(choice: u32, ty: u32, size: u32, values: Seq<u8>)
    ensures
        ({
            let c = pipewire::choice_payload(choice, ty, size, values);
            &&& c[0] + c[1] * 0x100 + c[2] * 0x1_0000 + c[3] * 0x100_0000 == choice
            &&& c[4] == 0 && c[5] == 0 && c[6] == 0 && c[7] == 0
            &&& c[8] + c[9] * 0x100 + c[10] * 0x1_0000 + c[11] * 0x100_0000 == size
            &&& c[12] + c[13] * 0x100 + c[14] * 0x1_0000 + c[15] * 0x100_0000 == ty
            &&& c.skip(16) == values
        }),
{
    let c = pipewire::choice_payload(choice, ty, size, values);
    let (k, s, t) = (bytes::le32(choice), bytes::le32(size), bytes::le32(ty));
    number_of(choice);
    number_of(size);
    number_of(ty);
    assert(c[0] == k[0] && c[1] == k[1] && c[2] == k[2] && c[3] == k[3]);
    assert(c[8] == s[0] && c[9] == s[1] && c[10] == s[2] && c[11] == s[3]);
    assert(c[12] == t[0] && c[13] == t[1] && c[14] == t[2] && c[15] == t[3]);
    assert(c.skip(16) =~= values);
}

/// Values stand one behind another, in order, each least significant byte first.
#[verifier::spinoff_prover]
#[verifier::rlimit(40)]
pub proof fn values_stand_in_order(values: Seq<u32>, k: int)
    requires
        0 <= k < values.len(),
    ensures
        pipewire::words(values).len() == 4 * values.len(),
        ({
            let w = pipewire::words(values);
            w[4 * k] + w[4 * k + 1] * 0x100 + w[4 * k + 2] * 0x1_0000 + w[4 * k + 3] * 0x100_0000
                == values[k]
        }),
    decreases values.len(),
{
    let fewer = values.drop_last();
    let (a, b) = (pipewire::words(fewer), bytes::le32(values.last()));
    let w = pipewire::words(values);
    if fewer.len() > 0 {
        values_stand_in_order(fewer, 0);
    }
    number_of(values.last());
    assert(w == a + b);
    if k < fewer.len() {
        values_stand_in_order(fewer, k);
        assert(w[4 * k] == a[4 * k] && w[4 * k + 1] == a[4 * k + 1] && w[4 * k + 2] == a[4 * k + 2]
            && w[4 * k + 3] == a[4 * k + 3]);
    } else {
        assert(w[4 * k] == b[0] && w[4 * k + 1] == b[1] && w[4 * k + 2] == b[2] && w[4 * k + 3]
            == b[3]);
    }
}

/// Pairs stand one behind another, each one's first value ahead of its second.
#[verifier::spinoff_prover]
#[verifier::rlimit(40)]
pub proof fn pairs_stand_in_order(values: Seq<(u32, u32)>, k: int)
    requires
        0 <= k < values.len(),
    ensures
        pipewire::pairs(values).len() == 8 * values.len(),
        ({
            let w = pipewire::pairs(values);
            &&& w[8 * k] + w[8 * k + 1] * 0x100 + w[8 * k + 2] * 0x1_0000 + w[8 * k + 3]
                * 0x100_0000 == values[k].0
            &&& w[8 * k + 4] + w[8 * k + 5] * 0x100 + w[8 * k + 6] * 0x1_0000 + w[8 * k + 7]
                * 0x100_0000 == values[k].1
        }),
    decreases values.len(),
{
    let fewer = values.drop_last();
    let last = values.last();
    let (a, b, c) = (pipewire::pairs(fewer), bytes::le32(last.0), bytes::le32(last.1));
    let w = pipewire::pairs(values);
    if fewer.len() > 0 {
        pairs_stand_in_order(fewer, 0);
    }
    number_of(last.0);
    number_of(last.1);
    assert(w == a + (b + c));
    if k < fewer.len() {
        pairs_stand_in_order(fewer, k);
        assert(w[8 * k] == a[8 * k] && w[8 * k + 1] == a[8 * k + 1] && w[8 * k + 2] == a[8 * k + 2]
            && w[8 * k + 3] == a[8 * k + 3]);
        assert(w[8 * k + 4] == a[8 * k + 4] && w[8 * k + 5] == a[8 * k + 5] && w[8 * k + 6] == a[8
            * k + 6] && w[8 * k + 7] == a[8 * k + 7]);
    } else {
        assert(w[8 * k] == b[0] && w[8 * k + 1] == b[1] && w[8 * k + 2] == b[2] && w[8 * k + 3]
            == b[3]);
        assert(w[8 * k + 4] == c[0] && w[8 * k + 5] == c[1] && w[8 * k + 6] == c[2] && w[8 * k + 7]
            == c[3]);
    }
}

/// A property is read where it stands: its key, its flags, its value's length and type, then the
/// value.
#[verifier::spinoff_prover]
#[verifier::rlimit(40)]
pub proof fn properties_are_read_where_they_stand(body: Seq<u8>, off: int)
    requires
        0 <= off,
        off + 16 <= body.len(),
    ensures
        ({
            let p = pipewire::prop_at(body, off);
            let n = body[off + 8] + body[off + 9] * 0x100 + body[off + 10] * 0x1_0000 + body[off
                + 11] * 0x100_0000;
            &&& p.key == body[off] + body[off + 1] * 0x100 + body[off + 2] * 0x1_0000 + body[off + 3]
                * 0x100_0000
            &&& p.flags == body[off + 4] + body[off + 5] * 0x100 + body[off + 6] * 0x1_0000
                + body[off + 7] * 0x100_0000
            &&& p.ty == body[off + 12] + body[off + 13] * 0x100 + body[off + 14] * 0x1_0000
                + body[off + 15] * 0x100_0000
            &&& off + 16 + n <= body.len() ==> p.payload == body.subrange(off + 16, off + 16 + n)
            &&& pipewire::value_size(body, off) == n
        }),
{
    reveal(pipewire::prop_at);
    reveal(pipewire::value_size);
}

/// A value is its cell's own, and of a choice the first: what its length says, from the sixteenth
/// byte on, of the type that the choice tells.
#[verifier::spinoff_prover]
#[verifier::rlimit(40)]
pub proof fn values_are_the_cells_own(ty: u32, payload: Seq<u8>)
    ensures
        ty != 19 ==> pipewire::value_of(ty, payload) == Some((ty, payload)),
        ty == 19 && payload.len() < 16 ==> pipewire::value_of(ty, payload) is None,
        ty == 19 && payload.len() >= 16 ==> {
            let n = payload[8] + payload[9] * 0x100 + payload[10] * 0x1_0000 + payload[11]
                * 0x100_0000;
            let t = payload[12] + payload[13] * 0x100 + payload[14] * 0x1_0000 + payload[15]
                * 0x100_0000;
            &&& payload.len() < 16 + n ==> pipewire::value_of(ty, payload) is None
            &&& payload.len() >= 16 + n ==> pipewire::value_of(ty, payload) == Some(
                (t as u32, payload.subrange(16, 16 + n)),
            )
        },
{
}

/// A number is written most significant byte first, or least, byte by byte.
pub proof fn numbers_are_written_byte_by_byte(v: u16, w: u32)
    ensures
        bytes::be16(v).len() == 2 && bytes::be16(v)[0] * 0x100 + bytes::be16(v)[1] == v,
        bytes::le16(v).len() == 2 && bytes::le16(v)[0] + bytes::le16(v)[1] * 0x100 == v,
        ({
            let b = bytes::be32(w);
            b.len() == 4 && b[0] * 0x100_0000 + b[1] * 0x1_0000 + b[2] * 0x100 + b[3] == w
        }),
        ({
            let b = bytes::le32(w);
            b.len() == 4 && b[0] + b[1] * 0x100 + b[2] * 0x1_0000 + b[3] * 0x100_0000 == w
        }),
{
}

} // verus!
