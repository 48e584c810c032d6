//! What a capture counts between two lines of the debug log.
//!
//! Whichever thread owns the encoders counts the frames and stripes that it sends, and describes
//! its encoder. The log takes the counts once a second and starts them over.

use vstd::prelude::*;
use vstd::string::*;
use crate::settings::RustCaptureSettings;
use crate::text;
use crate::text::{append_signed, append_unsigned};

verus! {

/// The counts of a capture, and how its encoder is described.
#[derive(Debug)]
pub struct WlEncodeStats {
    pub frames: u32,
    pub stripes: u32,
    pub n_stripes: u32,
    pub desc: String,
}

/// The memory that a line tells, in bytes.
#[derive(Clone, Copy, Debug, PartialEq, Eq, Structural)]
pub struct Memory {
    pub rss: u64,
    pub shm: u64,
}

/// A counter after `n` more, which starts over past the largest value it holds.
pub open spec fn counted(count: u32, n: int) -> int {
    (count + n) % 0x1_0000_0000
}

/// The line of a capture in the debug log. The rates come as they are shown.
pub open spec fn line_text(
    display_id: u32,
    s: RustCaptureSettings,
    desc: Seq<char>,
    n_stripes: u32,
    fps: Seq<char>,
    stripes_per_s: Seq<char>,
    memory: Memory,
) -> Seq<char> {
    "Display: "@ + text::decimal(display_id as nat) + " Res: "@ + text::signed_decimal(
        s.width as int,
    ) + "x"@ + text::signed_decimal(s.height as int) + " Mode: "@ + desc + " Stripes: "@
        + text::decimal(n_stripes as nat) + " EncFPS: "@ + fps + " EncStripes/s: "@ + stripes_per_s
        + " Mem: "@ + text::decimal((memory.rss / 1024 / 1024) as nat) + "MB SHM: "@ + text::decimal(
        (memory.shm / 1024 / 1024) as nat,
    ) + "MB"@
}

impl WlEncodeStats {
    /// Nothing sent yet, by an encoder of one stripe that nothing is known of.
    pub fn new() -> (s: WlEncodeStats)
        ensures
            s.frames == 0,
            s.stripes == 0,
            s.n_stripes == 1,
            s.desc@ == Seq::<char>::empty(),
    {
        WlEncodeStats { frames: 0, stripes: 0, n_stripes: 1, desc: String::new() }
    }

    /// Describe the encoder that was settled on.
    pub fn describe(&mut self, n_stripes: u32, desc: String)
        ensures
            *final(self) == (WlEncodeStats { n_stripes, desc, ..*old(self) }),
    {
        self.n_stripes = n_stripes;
        self.desc = desc;
    }

    /// Count a frame of this many stripes; one of none was not sent.
    pub fn count(&mut self, stripes: usize)
        ensures
            stripes == 0 ==> *final(self) == *old(self),
            stripes != 0 ==> {
                &&& final(self).frames == counted(old(self).frames, 1)
                &&& final(self).stripes == counted(old(self).stripes, stripes as int)
                &&& final(self).n_stripes == old(self).n_stripes
                &&& final(self).desc == old(self).desc
            },
    {
        if stripes == 0 {
            return;
        }
        let more: u32 = (stripes as u64 % 0x1_0000_0000) as u32;
        self.frames = self.frames.wrapping_add(1);
        self.stripes = self.stripes.wrapping_add(more);
    }

    /// Take the counts, frames and stripes, and start them over.
    pub fn take(&mut self) -> (counts: (u32, u32))
        ensures
            counts == (old(self).frames, old(self).stripes),
            *final(self) == (WlEncodeStats { frames: 0, stripes: 0, ..*old(self) }),
    {
        let counts: (u32, u32) = (self.frames, self.stripes);
        self.frames = 0;
        self.stripes = 0;
        counts
    }

    /// Compose the line of a capture in the debug log; none where the capture does not log.
    pub fn line(
        &self,
        display_id: u32,
        settings: &RustCaptureSettings,
        fps: &str,
        stripes_per_s: &str,
        memory: Memory,
    ) -> (line: Option<String>)
        ensures
            line is Some <==> settings.debug_logging,
            line is Some ==> line->0@ == line_text(
                display_id,
                *settings,
                self.desc@,
                self.n_stripes,
                fps@,
                stripes_per_s@,
                memory,
            ),
    {
        if !settings.debug_logging {
            return None;
        }
        let mut out = "Display: ".to_owned();
        append_unsigned(&mut out, display_id as u64);
        out.append(" Res: ");
        append_signed(&mut out, settings.width as i64);
        out.append("x");
        append_signed(&mut out, settings.height as i64);
        out.append(" Mode: ");
        out.append(self.desc.as_str());
        out.append(" Stripes: ");
        append_unsigned(&mut out, self.n_stripes as u64);
        out.append(" EncFPS: ");
        out.append(fps);
        out.append(" EncStripes/s: ");
        out.append(stripes_per_s);
        out.append(" Mem: ");
        append_unsigned(&mut out, memory.rss / 1024 / 1024);
        out.append("MB SHM: ");
        append_unsigned(&mut out, memory.shm / 1024 / 1024);
        out.append("MB");
        Some(out)
    }
}

/// Whether the log is due: once a second.
pub fn log_due(elapsed_ns: u64) -> (due: bool)
    ensures
        due == (elapsed_ns >= 1_000_000_000),
{
    elapsed_ns >= 1_000_000_000
}

/// The counts of a run of frames between two lines: every frame with stripes once, every stripe
/// once, up to where the counters start over.
pub open spec fn run(s: WlEncodeStats, sent: Seq<nat>) -> (int, int)
    decreases sent.len(),
{
    if sent.len() == 0 {
        (s.frames as int, s.stripes as int)
    } else {
        let (frames, stripes) = run(s, sent.drop_last());
        if sent.last() == 0 {
            (frames, stripes)
        } else {
            (counted(frames as u32, 1), counted(stripes as u32, sent.last() as int))
        }
    }
}

/// The frames of a run that were sent, and the stripes of them.
pub open spec fn sent_in(sent: Seq<nat>) -> (nat, nat)
    decreases sent.len(),
{
    if sent.len() == 0 {
        (0, 0)
    } else {
        let (frames, stripes) = sent_in(sent.drop_last());
        (
            frames + if sent.last() == 0 {
                0nat
            } else {
                1nat
            },
            stripes + sent.last(),
        )
    }
}

/// Counts that start over tell exactly what was sent since, where the counters hold it.
pub proof fn counts_tell_what_was_sent(s: WlEncodeStats, sent: Seq<nat>)
    requires
        s.frames == 0,
        s.stripes == 0,
        sent_in(sent).0 <= u32::MAX,
        sent_in(sent).1 <= u32::MAX,
    ensures
        run(s, sent) == (sent_in(sent).0 as int, sent_in(sent).1 as int),
    decreases sent.len(),
{
    if sent.len() > 0 {
        counts_tell_what_was_sent(s, sent.drop_last());
    }
}

} // verus!
