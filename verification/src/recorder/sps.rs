//! H.264 sequence parameter sets: the coded frame size behind the Exp-Golomb fields.

use vstd::prelude::*;
use vstd::arithmetic::power2::{lemma2_to64, lemma_pow2_unfold, pow2};
use vstd::slice::slice_subrange;

verus! {

/// The byte at `i` is an emulation-prevention byte: the `03` of a `00 00 03` run.
pub open spec fn is_escape(data: Seq<u8>, i: int) -> bool {
    2 <= i < data.len() && data[i] == 3 && data[i - 1] == 0 && data[i - 2] == 0
}

/// The first `n` bytes of a payload with its emulation-prevention bytes left out.
pub open spec fn unescaped_prefix(data: Seq<u8>, n: nat) -> Seq<u8>
    decreases n,
{
    if n == 0 {
        seq![]
    } else if is_escape(data, n - 1) {
        unescaped_prefix(data, (n - 1) as nat)
    } else {
        unescaped_prefix(data, (n - 1) as nat).push(data[n - 1])
    }
}

/// A raw payload with its emulation-prevention bytes left out.
pub open spec fn unescaped(data: Seq<u8>) -> Seq<u8> {
    unescaped_prefix(data, data.len())
}

/// A payload with no emulation-prevention byte is its own raw form.
pub proof fn unescaping_keeps_plain_payloads(data: Seq<u8>)
    requires
        forall|i: int| !is_escape(data, i),
    ensures
        unescaped(data) == data,
{
    plain_prefix(data, data.len());
    assert(data.take(data.len() as int) =~= data);
}

proof fn plain_prefix(data: Seq<u8>, n: nat)
    requires
        n <= data.len(),
        forall|i: int| !is_escape(data, i),
    ensures
        unescaped_prefix(data, n) == data.take(n as int),
    decreases n,
{
    if n == 0 {
        assert(data.take(0) =~= seq![]);
    } else {
        plain_prefix(data, (n - 1) as nat);
        assert(!is_escape(data, n - 1));
        assert(data.take(n as int) =~= data.take(n - 1).push(data[n - 1]));
    }
}

/// Drop the emulation-prevention byte from every `00 00 03` run.
pub fn unescape_rbsp(data: &[u8]) -> (out: Vec<u8>)
    ensures
        out@ == unescaped(data@),
{
    let mut out: Vec<u8> = Vec::new();
    // Zero bytes seen in a row, counted no further than two.
    let mut run: u8 = 0;
    let mut i: usize = 0;
    while i < data.len()
        invariant
            i <= data.len(),
            run <= 2,
            out@ == unescaped_prefix(data@, i as nat),
            run >= 1 <==> i >= 1 && data@[i - 1] == 0,
            run >= 2 <==> i >= 2 && data@[i - 1] == 0 && data@[i - 2] == 0,
        decreases data.len() - i,
    {
        let b: u8 = data[i];
        if run >= 2 && b == 3 {
            assert(is_escape(data@, i as int));
            run = 0;
        } else {
            assert(!is_escape(data@, i as int));
            out.push(b);
            if b != 0 {
                run = 0;
            } else if run < 2 {
                run += 1;
            }
        }
        i += 1;
    }
    out
}

/// Bit `i` of a byte string, the most significant bit of each byte first.
pub open spec fn bit_at(data: Seq<u8>, i: int) -> nat {
    ((data[i / 8] >> ((7 - i % 8) as u8)) & 1) as nat
}

/// The `n` bits from `pos` on as a number, most significant first.
pub open spec fn bits_value(data: Seq<u8>, pos: int, n: nat) -> nat
    decreases n,
{
    if n == 0 {
        0
    } else {
        2 * bits_value(data, pos, (n - 1) as nat) + bit_at(data, pos + n - 1)
    }
}

/// How many zero bits precede the first one bit at `pos`, `z` of them already counted; none
/// when the data ends first or the run is longer than 31.
pub open spec fn zero_run(data: Seq<u8>, pos: int, z: nat) -> Option<nat>
    decreases 32 - z,
{
    if pos + z >= 8 * data.len() {
        None
    } else if bit_at(data, pos + z) == 1 {
        Some(z)
    } else if z >= 31 {
        None
    } else {
        zero_run(data, pos, z + 1)
    }
}

/// An unsigned Exp-Golomb code at `pos`: its value and where the next field begins.
pub open spec fn ue_at(data: Seq<u8>, pos: int) -> Option<(nat, int)> {
    match zero_run(data, pos, 0) {
        None => None,
        Some(z) => if pos + 2 * z + 1 > 8 * data.len() {
            None
        } else {
            Some(
                (
                    (pow2(z) - 1 + bits_value(data, pos + z + 1, z)) as nat,
                    pos + 2 * z + 1,
                ),
            )
        },
    }
}

/// A signed Exp-Golomb value from its unsigned code: even codes count down from zero, odd ones
/// up from one.
pub open spec fn signed_of(k: nat) -> int {
    if k % 2 == 0 {
        -(k as int / 2)
    } else {
        (k as int + 1) / 2
    }
}

/// Where a walk over the fields stands.
pub enum Cursor {
    /// The data ended, or a code was too long.
    Malformed,
    /// A value left the range its field is computed in.
    OutOfRange,
    /// At a bit position.
    At(int),
}

/// Past one unsigned (or signed) Exp-Golomb field.
pub open spec fn past_ue(data: Seq<u8>, c: Cursor) -> Cursor {
    match c {
        Cursor::At(p) => match ue_at(data, p) {
            Some((v, q)) => Cursor::At(q),
            None => Cursor::Malformed,
        },
        _ => c,
    }
}

/// The unsigned Exp-Golomb field a cursor stands at.
pub open spec fn ue_value(data: Seq<u8>, c: Cursor) -> nat {
    match c {
        Cursor::At(p) => match ue_at(data, p) {
            Some((v, q)) => v,
            None => 0,
        },
        _ => 0,
    }
}

/// Past one flag bit.
pub open spec fn past_bit(data: Seq<u8>, c: Cursor) -> Cursor {
    match c {
        Cursor::At(p) => if p < 8 * data.len() {
            Cursor::At(p + 1)
        } else {
            Cursor::Malformed
        },
        _ => c,
    }
}

/// The flag bit a cursor stands at.
pub open spec fn flag_value(data: Seq<u8>, c: Cursor) -> nat {
    match c {
        Cursor::At(p) => if p < 8 * data.len() {
            bit_at(data, p)
        } else {
            0
        },
        _ => 0,
    }
}

/// Past `n` Exp-Golomb fields.
pub open spec fn past_ues(data: Seq<u8>, c: Cursor, n: nat) -> Cursor
    decreases n,
{
    match c {
        Cursor::At(p) => if n == 0 {
            c
        } else {
            past_ues(data, past_ue(data, c), (n - 1) as nat)
        },
        _ => c,
    }
}

/// A remainder that keeps the sign of its dividend.
pub open spec fn signed_rem(x: int, m: int) -> int {
    if x >= 0 {
        x % m
    } else {
        -((-x) % m)
    }
}

pub open spec fn fits_i32(x: int) -> bool {
    i32::MIN <= x <= i32::MAX
}

/// Past one scaling list with `left` entries to go: a delta is read for each entry until the
/// running scale becomes zero, after which the rest repeat the last one.
pub open spec fn past_scaling_list(
    data: Seq<u8>,
    c: Cursor,
    left: nat,
    next: int,
    last: int,
) -> Cursor
    decreases left,
{
    match c {
        Cursor::At(p) => if left == 0 || next == 0 {
            c
        } else {
            match past_ue(data, c) {
                Cursor::At(q) => {
                    let sum = last + signed_of(ue_value(data, c));
                    if fits_i32(sum) && fits_i32(sum + 256) {
                        let scale = signed_rem(sum + 256, 256);
                        past_scaling_list(
                            data,
                            Cursor::At(q),
                            (left - 1) as nat,
                            scale,
                            if scale != 0 {
                                scale
                            } else {
                                last
                            },
                        )
                    } else {
                        Cursor::OutOfRange
                    }
                },
                other => other,
            }
        },
        _ => c,
    }
}

/// Past the scaling lists numbered `i` up to `lists`: each behind a presence flag, the first six
/// of 16 entries and the others of 64.
pub open spec fn past_scaling_lists(data: Seq<u8>, c: Cursor, i: nat, lists: nat) -> Cursor
    decreases lists - i,
{
    match c {
        Cursor::At(p) => if i >= lists {
            c
        } else {
            let present = flag_value(data, c) == 1;
            let size: nat = if i < 6 {
                16
            } else {
                64
            };
            let after = past_bit(data, c);
            past_scaling_lists(
                data,
                if present {
                    past_scaling_list(data, after, size, 8, 8)
                } else {
                    after
                },
                i + 1,
                lists,
            )
        },
        _ => c,
    }
}

/// The profiles whose parameter sets carry the chroma, bit-depth and scaling-list block.
pub open spec fn has_chroma_info(profile: u8) -> bool {
    profile == 100 || profile == 110 || profile == 122 || profile == 244 || profile == 44
        || profile == 83 || profile == 86 || profile == 118 || profile == 128 || profile == 138
        || profile == 139 || profile == 134 || profile == 135
}

/// Past the chroma block that opens with `chroma_format_idc`: the separate-plane flag of 4:4:4,
/// both bit depths, the bypass flag, then the scaling matrix where one is present.
pub open spec fn past_chroma_info(data: Seq<u8>, c: Cursor) -> Cursor {
    let idc = ue_value(data, c);
    let c1 = past_ue(data, c);
    let c2 = if idc == 3 {
        past_bit(data, c1)
    } else {
        c1
    };
    let c3 = past_bit(data, past_ue(data, past_ue(data, c2)));
    let matrix = flag_value(data, c3) == 1;
    let c4 = past_bit(data, c3);
    if matrix {
        past_scaling_lists(
            data,
            c4,
            0,
            if idc == 3 {
                12
            } else {
                8
            },
        )
    } else {
        c4
    }
}

/// Past the picture-order fields, which open with their type.
pub open spec fn past_picture_order(data: Seq<u8>, c: Cursor) -> Cursor {
    let kind = ue_value(data, c);
    let c1 = past_ue(data, c);
    if kind == 0 {
        past_ue(data, c1)
    } else if kind == 1 {
        let c2 = past_ue(data, past_ue(data, past_bit(data, c1)));
        past_ues(data, past_ue(data, c2), ue_value(data, c2))
    } else {
        c1
    }
}

/// What a parameter set says of the frame size.
#[derive(Clone, Copy, PartialEq, Eq, Structural)]
pub enum SpsSize {
    /// Not a parameter set, or one cut short.
    Malformed,
    /// A field or the size itself leaves 32 bits.
    OutOfRange,
    /// Width and height in pixels, cropping applied.
    Pixels(u32, u32),
}

/// One axis of the frame: macroblocks less the cropped units, where every step stays in 32 bits.
pub open spec fn cropped(blocks: int, unit: int, near: nat, far: nat) -> Option<u32> {
    if blocks * 16 <= u32::MAX && near + far <= u32::MAX && unit * (near + far) <= blocks * 16 {
        Some((blocks * 16 - unit * (near + far)) as u32)
    } else {
        None
    }
}

/// The horizontal crop unit of a chroma format.
pub open spec fn crop_unit_x(idc: nat) -> int {
    if idc == 0 || idc == 3 {
        1
    } else {
        2
    }
}

/// The vertical crop unit of a chroma format, for frames coded as frames.
pub open spec fn crop_unit_y(idc: nat) -> int {
    if idc == 0 || idc == 3 || idc == 2 {
        1
    } else {
        2
    }
}

/// The frame-size fields and all behind them, from the reference-frame count on.
pub open spec fn size_from(data: Seq<u8>, c: Cursor, idc: nat) -> SpsSize {
    let at_width = past_bit(data, past_ue(data, c));
    let at_height = past_ue(data, at_width);
    let at_frames = past_ue(data, at_height);
    let frames_only = flag_value(data, at_frames);
    let c1 = past_bit(data, at_frames);
    let c2 = if frames_only == 0 {
        past_bit(data, c1)
    } else {
        c1
    };
    let at_crop = past_bit(data, c2);
    let crop = flag_value(data, at_crop) == 1;
    let left = past_bit(data, at_crop);
    let right = past_ue(data, left);
    let top = past_ue(data, right);
    let bottom = past_ue(data, top);
    let end = if crop {
        past_ue(data, bottom)
    } else {
        left
    };
    match end {
        Cursor::Malformed => SpsSize::Malformed,
        Cursor::OutOfRange => SpsSize::OutOfRange,
        Cursor::At(p) => {
            let fields = 2 - frames_only;
            let w = cropped(
                (ue_value(data, at_width) + 1) as int,
                crop_unit_x(idc),
                if crop {
                    ue_value(data, left)
                } else {
                    0
                },
                if crop {
                    ue_value(data, right)
                } else {
                    0
                },
            );
            let h = cropped(
                fields * (ue_value(data, at_height) + 1),
                crop_unit_y(idc) * fields,
                if crop {
                    ue_value(data, top)
                } else {
                    0
                },
                if crop {
                    ue_value(data, bottom)
                } else {
                    0
                },
            );
            match (w, h) {
                (Some(width), Some(height)) => SpsSize::Pixels(width, height),
                _ => SpsSize::OutOfRange,
            }
        },
    }
}

/// The frame size a sequence parameter set NAL (with its header byte) carries.
pub open spec fn sps_size(sps: Seq<u8>) -> SpsSize {
    if sps.len() < 4 || sps[0] % 32 != 7 {
        SpsSize::Malformed
    } else {
        let data = unescaped(sps.subrange(4, sps.len() as int));
        let c = past_ue(data, Cursor::At(0));
        let chroma = has_chroma_info(sps[1]);
        let idc = if chroma {
            ue_value(data, c)
        } else {
            1
        };
        let c1 = if chroma {
            past_chroma_info(data, c)
        } else {
            c
        };
        size_from(data, past_picture_order(data, past_ue(data, c1)), idc)
    }
}

/// MSB-first bit reader over an unescaped payload, with Exp-Golomb decode.
pub struct BitReader<'a> {
    data: &'a [u8],
    byte: usize,
    off: u8,
}

impl<'a> BitReader<'a> {
    /// The bytes read from.
    pub closed spec fn data(&self) -> Seq<u8> {
        self.data@
    }

    /// The next bit's position.
    pub closed spec fn pos(&self) -> int {
        8 * self.byte + self.off
    }

    pub closed spec fn wf(&self) -> bool {
        self.byte <= self.data@.len() && self.off < 8 && (self.byte == self.data@.len() ==> self.off
            == 0)
    }

    pub fn new(data: &'a [u8]) -> (r: Self)
        ensures
            r.wf(),
            r.data() == data@,
            r.pos() == 0,
    {
        BitReader { data, byte: 0, off: 0 }
    }

    /// The next bit, or none at the end.
    pub fn bit(&mut self) -> (r: Option<u32>)
        requires
            old(self).wf(),
        ensures
            final(self).wf(),
            final(self).data() == old(self).data(),
            r is Some <==> old(self).pos() < 8 * old(self).data().len(),
            r matches Some(v) ==> v == bit_at(old(self).data(), old(self).pos()) && v <= 1
                && final(self).pos() == old(self).pos() + 1,
            r is None ==> final(self).pos() == old(self).pos(),
    {
        if self.byte >= self.data.len() {
            return None;
        }
        let b: u8 = self.data[self.byte];
        let shift: u8 = 7 - self.off;
        let v: u8 = (b >> shift) & 1;
        assert(v <= 1) by (bit_vector)
            requires
                v == (b >> shift) & 1,
        ;
        if self.off == 7 {
            self.byte += 1;
            self.off = 0;
        } else {
            self.off += 1;
        }
        Some(v as u32)
    }

    /// The next `n` bits as a number, or none when fewer are left.
    pub fn bits(&mut self, n: u32) -> (r: Option<u32>)
        requires
            old(self).wf(),
            n <= 32,
        ensures
            final(self).wf(),
            final(self).data() == old(self).data(),
            r is Some <==> old(self).pos() + n <= 8 * old(self).data().len(),
            r matches Some(v) ==> v == bits_value(old(self).data(), old(self).pos(), n as nat)
                && final(self).pos() == old(self).pos() + n,
    {
        let mut v: u32 = 0;
        let mut i: u32 = 0;
        let ghost data = self.data();
        let ghost start = self.pos();
        while i < n
            invariant
                self.wf(),
                self.data() == data,
                self.pos() == start + i,
                start + i <= 8 * data.len(),
                i <= n <= 32,
                v == bits_value(data, start, i as nat),
                start == old(self).pos(),
                data == old(self).data(),
            decreases n - i,
        {
            match self.bit() {
                None => {
                    return None;
                },
                Some(b) => {
                    proof {
                        bits_value_bound(data, start, i as nat);
                        lemma_pow2_unfold((i + 1) as nat);
                        lemma2_to64();
                        pow2_at_most(i as nat, 31);
                    }
                    v = v * 2 + b;
                    i += 1;
                },
            }
        }
        Some(v)
    }

    /// An unsigned Exp-Golomb code: leading zeros, a one bit, then as many bits as zeros.
    pub fn ue(&mut self) -> (r: Option<u32>)
        requires
            old(self).wf(),
        ensures
            final(self).wf(),
            final(self).data() == old(self).data(),
            match ue_at(old(self).data(), old(self).pos()) {
                None => r is None,
                Some((v, q)) => r == Some(v as u32) && v <= u32::MAX - 1 && final(self).pos() == q,
            },
    {
        let mut zeros: u32 = 0;
        let mut base: u32 = 1;
        let ghost data = self.data();
        let ghost start = self.pos();
        proof {
            lemma2_to64();
        }
        loop
            invariant_except_break
                self.wf(),
                self.data() == data,
                self.pos() == start + zeros,
                zeros <= 31,
                base == pow2(zeros as nat),
                zero_run(data, start, 0) == zero_run(data, start, zeros as nat),
                start == old(self).pos(),
                data == old(self).data(),
            ensures
                self.wf(),
                self.data() == data,
                self.pos() == start + zeros + 1,
                zeros <= 31,
                base == pow2(zeros as nat),
                zero_run(data, start, 0) == Some(zeros as nat),
                start == old(self).pos(),
                data == old(self).data(),
            decreases 32 - zeros,
        {
            match self.bit() {
                None => {
                    return None;
                },
                Some(b) => {
                    if b != 0 {
                        break;
                    }
                },
            }
            if zeros >= 31 {
                return None;
            }
            proof {
                lemma_pow2_unfold((zeros + 1) as nat);
                lemma2_to64();
                pow2_at_most(zeros as nat, 30);
            }
            zeros += 1;
            base = base * 2;
        }
        match self.bits(zeros) {
            None => None,
            Some(rest) => {
                proof {
                    bits_value_bound(data, start + zeros + 1, zeros as nat);
                    lemma2_to64();
                    pow2_at_most(zeros as nat, 31);
                }
                Some(base - 1 + rest)
            },
        }
    }

    /// A signed Exp-Golomb code.
    pub fn se(&mut self) -> (r: Option<i32>)
        requires
            old(self).wf(),
        ensures
            final(self).wf(),
            final(self).data() == old(self).data(),
            match ue_at(old(self).data(), old(self).pos()) {
                None => r is None,
                Some((v, q)) => r == Some(signed_of(v) as i32) && fits_i32(signed_of(v)) && final(self).pos() == q,
            },
    {
        match self.ue() {
            None => None,
            Some(k) => {
                let half: i64 = (k / 2) as i64;
                if k % 2 == 0 {
                    Some((0 - half) as i32)
                } else {
                    Some((half + 1) as i32)
                }
            },
        }
    }
}

proof fn bits_value_bound(data: Seq<u8>, pos: int, n: nat)
    ensures
        bits_value(data, pos, n) < pow2(n),
    decreases n,
{
    if n == 0 {
        lemma2_to64();
    } else {
        bits_value_bound(data, pos, (n - 1) as nat);
        lemma_pow2_unfold(n);
        let b: u8 = data[(pos + n - 1) / 8];
        let shift: u8 = (7 - (pos + n - 1) % 8) as u8;
        assert((b >> shift) & 1 <= 1) by (bit_vector);
    }
}

proof fn pow2_at_most(a: nat, b: nat)
    requires
        a <= b,
    ensures
        pow2(a) <= pow2(b),
        pow2(a) >= 1,
    decreases b - a,
{
    if a < b {
        pow2_at_most(a, (b - 1) as nat);
        lemma_pow2_unfold(b);
    } else {
        vstd::arithmetic::power2::lemma_pow2_pos(a);
    }
}

/// How a walk over a block of fields ended.
#[derive(Clone, Copy, PartialEq, Eq, Structural)]
pub enum Walk {
    Malformed,
    OutOfRange,
    Done,
}

/// The walk ended as the cursor says, with the reader standing where it does.
pub open spec fn walked(w: Walk, r: BitReader<'_>, c: Cursor) -> bool {
    match c {
        Cursor::Malformed => w == Walk::Malformed,
        Cursor::OutOfRange => w == Walk::OutOfRange,
        Cursor::At(p) => w == Walk::Done && r.pos() == p,
    }
}

fn skip_scaling_list(r: &mut BitReader<'_>, size: u32) -> (w: Walk)
    requires
        old(r).wf(),
    ensures
        final(r).wf(),
        final(r).data() == old(r).data(),
        walked(
            w,
            *final(r),
            past_scaling_list(old(r).data(), Cursor::At(old(r).pos()), size as nat, 8, 8),
        ),
{
    let mut next_scale: i32 = 8;
    let mut last_scale: i32 = 8;
    let mut i: u32 = 0;
    let ghost data = r.data();
    let ghost whole = past_scaling_list(data, Cursor::At(r.pos()), size as nat, 8, 8);
    while i < size && next_scale != 0
        invariant
            r.wf(),
            r.data() == data,
            i <= size,
            whole == past_scaling_list(
                data,
                Cursor::At(r.pos()),
                (size - i) as nat,
                next_scale as int,
                last_scale as int,
            ),
            data == old(r).data(),
            whole == past_scaling_list(old(r).data(), Cursor::At(old(r).pos()), size as nat, 8, 8),
        decreases size - i,
    {
        match r.se() {
            None => {
                return Walk::Malformed;
            },
            Some(delta) => {
                let sum: i64 = last_scale as i64 + delta as i64;
                let raised: i64 = sum + 256;
                if sum < i32::MIN as i64 || raised > i32::MAX as i64 {
                    return Walk::OutOfRange;
                }
                let scale: i64 = if raised >= 0 {
                    raised % 256
                } else {
                    0 - (0 - raised) % 256
                };
                next_scale = scale as i32;
                if next_scale != 0 {
                    last_scale = next_scale;
                }
            },
        }
        i += 1;
    }
    Walk::Done
}

fn skip_scaling_lists(r: &mut BitReader<'_>, lists: u32) -> (w: Walk)
    requires
        old(r).wf(),
    ensures
        final(r).wf(),
        final(r).data() == old(r).data(),
        walked(
            w,
            *final(r),
            past_scaling_lists(old(r).data(), Cursor::At(old(r).pos()), 0, lists as nat),
        ),
{
    let mut i: u32 = 0;
    let ghost data = r.data();
    let ghost whole = past_scaling_lists(data, Cursor::At(r.pos()), 0, lists as nat);
    while i < lists
        invariant
            r.wf(),
            r.data() == data,
            i <= lists,
            whole == past_scaling_lists(data, Cursor::At(r.pos()), i as nat, lists as nat),
            data == old(r).data(),
            whole == past_scaling_lists(
                old(r).data(),
                Cursor::At(old(r).pos()),
                0,
                lists as nat,
            ),
        decreases lists - i,
    {
        proof {
            reveal_with_fuel(past_scaling_lists, 2);
        }
        match r.bit() {
            None => {
                return Walk::Malformed;
            },
            Some(present) => {
                if present == 1 {
                    let w = skip_scaling_list(
                        r,
                        if i < 6 {
                            16
                        } else {
                            64
                        },
                    );
                    if w != Walk::Done {
                        return w;
                    }
                }
            },
        }
        i += 1;
    }
    Walk::Done
}

fn skip_ues(r: &mut BitReader<'_>, n: u32) -> (w: Walk)
    requires
        old(r).wf(),
    ensures
        final(r).wf(),
        final(r).data() == old(r).data(),
        walked(w, *final(r), past_ues(old(r).data(), Cursor::At(old(r).pos()), n as nat)),
{
    let mut i: u32 = 0;
    let ghost data = r.data();
    let ghost whole = past_ues(data, Cursor::At(r.pos()), n as nat);
    while i < n
        invariant
            r.wf(),
            r.data() == data,
            i <= n,
            whole == past_ues(data, Cursor::At(r.pos()), (n - i) as nat),
            data == old(r).data(),
            whole == past_ues(old(r).data(), Cursor::At(old(r).pos()), n as nat),
        decreases n - i,
    {
        proof {
            reveal_with_fuel(past_ues, 2);
        }
        if r.se().is_none() {
            return Walk::Malformed;
        }
        i += 1;
    }
    Walk::Done
}

fn skip_ue(r: &mut BitReader<'_>) -> (w: Walk)
    requires
        old(r).wf(),
    ensures
        final(r).wf(),
        final(r).data() == old(r).data(),
        walked(w, *final(r), past_ue(old(r).data(), Cursor::At(old(r).pos()))),
{
    if r.ue().is_none() {
        Walk::Malformed
    } else {
        Walk::Done
    }
}

fn chroma_profile(profile: u8) -> (b: bool)
    ensures
        b == has_chroma_info(profile),
{
    matches!(profile, 100 | 110 | 122 | 244 | 44 | 83 | 86 | 118 | 128 | 138 | 139 | 134 | 135)
}

/// Skip the chroma block, giving its `chroma_format_idc`.
fn skip_chroma_info(r: &mut BitReader<'_>) -> (w: (Walk, u32))
    requires
        old(r).wf(),
    ensures
        final(r).wf(),
        final(r).data() == old(r).data(),
        walked(w.0, *final(r), past_chroma_info(old(r).data(), Cursor::At(old(r).pos()))),
        w.0 == Walk::Done ==> w.1 == ue_value(old(r).data(), Cursor::At(old(r).pos())),
{
    let idc: u32 = match r.ue() {
        None => {
            return (Walk::Malformed, 0);
        },
        Some(v) => v,
    };
    if idc == 3 && r.bit().is_none() {
        return (Walk::Malformed, 0);
    }
    if r.ue().is_none() || r.ue().is_none() || r.bit().is_none() {
        return (Walk::Malformed, 0);
    }
    match r.bit() {
        None => (Walk::Malformed, 0),
        Some(matrix) => {
            if matrix == 1 {
                let lists: u32 = if idc == 3 {
                    12
                } else {
                    8
                };
                (skip_scaling_lists(r, lists), idc)
            } else {
                (Walk::Done, idc)
            }
        },
    }
}

/// Skip the picture-order fields.
fn skip_picture_order(r: &mut BitReader<'_>) -> (w: Walk)
    requires
        old(r).wf(),
    ensures
        final(r).wf(),
        final(r).data() == old(r).data(),
        walked(w, *final(r), past_picture_order(old(r).data(), Cursor::At(old(r).pos()))),
{
    match r.ue() {
        None => Walk::Malformed,
        Some(kind) => {
            if kind == 0 {
                skip_ue(r)
            } else if kind == 1 {
                if r.bit().is_none() || r.se().is_none() || r.se().is_none() {
                    return Walk::Malformed;
                }
                match r.ue() {
                    None => Walk::Malformed,
                    Some(n) => skip_ues(r, n),
                }
            } else {
                Walk::Done
            }
        },
    }
}

/// One axis of the frame from its macroblock count and cropping.
fn crop_axis(blocks: u64, unit: u64, near: u32, far: u32) -> (r: Option<u32>)
    requires
        blocks <= 0x2_0000_0000,
        unit <= 4,
    ensures
        r == cropped(blocks as int, unit as int, near as nat, far as nat),
{
    let cut: u64 = near as u64 + far as u64;
    assert(unit * cut <= 4 * cut) by (nonlinear_arith)
        requires
            unit <= 4,
    ;
    if blocks * 16 > u32::MAX as u64 || cut > u32::MAX as u64 || unit * cut > blocks * 16 {
        None
    } else {
        Some((blocks * 16 - unit * cut) as u32)
    }
}

/// Read the frame size and the fields behind it.
fn read_size(r: &mut BitReader<'_>, idc: u32) -> (s: SpsSize)
    requires
        old(r).wf(),
    ensures
        s == size_from(old(r).data(), Cursor::At(old(r).pos()), idc as nat),
{
    if r.ue().is_none() || r.bit().is_none() {
        return SpsSize::Malformed;
    }
    let width_minus1: u32 = match r.ue() {
        None => {
            return SpsSize::Malformed;
        },
        Some(v) => v,
    };
    let height_minus1: u32 = match r.ue() {
        None => {
            return SpsSize::Malformed;
        },
        Some(v) => v,
    };
    let frames_only: u32 = match r.bit() {
        None => {
            return SpsSize::Malformed;
        },
        Some(v) => v,
    };
    if frames_only == 0 && r.bit().is_none() {
        return SpsSize::Malformed;
    }
    if r.bit().is_none() {
        return SpsSize::Malformed;
    }
    let crop: u32 = match r.bit() {
        None => {
            return SpsSize::Malformed;
        },
        Some(v) => v,
    };
    let mut left: u32 = 0;
    let mut right: u32 = 0;
    let mut top: u32 = 0;
    let mut bottom: u32 = 0;
    if crop == 1 {
        match r.ue() {
            None => {
                return SpsSize::Malformed;
            },
            Some(v) => {
                left = v;
            },
        }
        match r.ue() {
            None => {
                return SpsSize::Malformed;
            },
            Some(v) => {
                right = v;
            },
        }
        match r.ue() {
            None => {
                return SpsSize::Malformed;
            },
            Some(v) => {
                top = v;
            },
        }
        match r.ue() {
            None => {
                return SpsSize::Malformed;
            },
            Some(v) => {
                bottom = v;
            },
        }
    }
    let unit_x: u64 = if idc == 0 || idc == 3 {
        1
    } else {
        2
    };
    let unit_y: u64 = if idc == 0 || idc == 3 || idc == 2 {
        1
    } else {
        2
    };
    let fields: u64 = 2 - frames_only as u64;
    let rows: u64 = height_minus1 as u64 + 1;
    assert(fields == 1 || fields == 2);
    let w = crop_axis(width_minus1 as u64 + 1, unit_x, left, right);
    let h = crop_axis(fields * rows, unit_y * fields, top, bottom);
    match (w, h) {
        (Some(width), Some(height)) => SpsSize::Pixels(width, height),
        _ => SpsSize::OutOfRange,
    }
}

/// Walk a parameter set to the frame size it carries.
///
/// Every field ahead of the size is walked, including the high-profile chroma, bit-depth and
/// scaling-list block, and the cropping rectangle is applied with the crop units of the chroma
/// format, so 4:2:0, 4:2:2 and 4:4:4 streams all report their true display size.
pub fn read_sps(sps_nal: &[u8]) -> (s: SpsSize)
    ensures
        s == sps_size(sps_nal@),
{
    if sps_nal.len() < 4 || sps_nal[0] % 32 != 7 {
        return SpsSize::Malformed;
    }
    let profile: u8 = sps_nal[1];
    let rbsp = unescape_rbsp(slice_subrange(sps_nal, 4, sps_nal.len()));
    let mut r = BitReader::new(rbsp.as_slice());
    if r.ue().is_none() {
        return SpsSize::Malformed;
    }
    let mut idc: u32 = 1;
    if chroma_profile(profile) {
        let (w, v) = skip_chroma_info(&mut r);
        match w {
            Walk::Malformed => {
                return SpsSize::Malformed;
            },
            Walk::OutOfRange => {
                return SpsSize::OutOfRange;
            },
            Walk::Done => {},
        }
        idc = v;
    }
    if r.ue().is_none() {
        return SpsSize::Malformed;
    }
    match skip_picture_order(&mut r) {
        Walk::Malformed => SpsSize::Malformed,
        Walk::OutOfRange => SpsSize::OutOfRange,
        Walk::Done => read_size(&mut r, idc),
    }
}

/// Coded frame dimensions out of a parameter set NAL (with its header byte), or none for one
/// that is malformed. A set whose fields leave 32-bit arithmetic has no dimensions to give;
/// [`read_sps`] tells such a set apart.
pub fn parse_sps_dimensions(sps_nal: &[u8]) -> (d: Option<(u32, u32)>)
    requires
        sps_size(sps_nal@) != SpsSize::OutOfRange,
    ensures
        match sps_size(sps_nal@) {
            SpsSize::Pixels(w, h) => d == Some((w, h)),
            _ => d is None,
        },
{
    match read_sps(sps_nal) {
        SpsSize::Pixels(w, h) => Some((w, h)),
        _ => None,
    }
}

} // verus!
