//! The writer's side of a recording: queued frames become a file that starts at a keyframe, and a
//! final status.

use vstd::prelude::*;
use vstd::string::*;
use crate::recorder::annexb;
use crate::recorder::control::{RecShared, RecordingMode, RecordingStatus};
use crate::recorder::mp4;
use crate::recorder::mp4::{FragmentWriter, H264SampleBuilder, Mp4Stats, NAL_IDR, NAL_PPS,
    NAL_SLICE, NAL_SPS};
use crate::recorder::sps;

verus! {

/// A recording's writer: the parameter sets seen so far and the file so far.
pub struct Muxer {
    writer: FragmentWriter,
    builder: H264SampleBuilder,
}

/// A writer's state.
pub struct MuxerView {
    pub file: mp4::MuxView,
    pub sets: mp4::BuilderView,
}

/// What became of a frame.
pub enum Muxed {
    /// Nothing was written: the frame holds no picture, or comes before the first keyframe.
    Skipped,
    /// The bytes to append to the file: the init segment where this is the first frame, then
    /// what the frame let go.
    Wrote { init: Vec<u8>, data: Vec<u8> },
    /// The parameter sets give no picture size; the recording ends.
    Unreadable,
    /// The parameter sets give a size past 32 bits; the recording is abandoned.
    OutOfRange,
}

/// A frame's units hold a picture.
pub open spec fn has_picture(nals: Seq<Seq<u8>>) -> bool {
    mp4::has_type(nals, NAL_IDR) || mp4::has_type(nals, NAL_SLICE)
}

/// The picture size that parameter sets give.
pub open spec fn size_of(sets: mp4::BuilderView) -> sps::SpsSize {
    sps::sps_size(sets.sps->0)
}

/// The sample entry of parameter sets that give a size.
pub open spec fn entry_of(sets: mp4::BuilderView) -> Seq<u8> {
    match size_of(sets) {
        sps::SpsSize::Pixels(w, h) => mp4::avc1_entry(sets.sps->0, sets.pps->0, w, h),
        _ => seq![],
    }
}

/// A file with the init segment of its parameter sets, where they give a size.
pub open spec fn opened(file: mp4::MuxView, sets: mp4::BuilderView) -> mp4::MuxView {
    match size_of(sets) {
        sps::SpsSize::Pixels(w, h) => file.with_init(entry_of(sets), w, h),
        _ => file,
    }
}

/// The counters of a recording whose file starts.
pub open spec fn sized(shared: RecShared, sets: mp4::BuilderView) -> RecShared {
    match size_of(sets) {
        sps::SpsSize::Pixels(w, h) => RecShared { width: w, height: h, ..shared },
        _ => shared,
    }
}

/// The counters of a recording whose parameter sets give no size: the first error stays.
pub open spec fn unreadable(before: RecShared, after: RecShared) -> bool {
    &&& after == RecShared { error: after.error, ..before }
    &&& match before.error {
        Some(e) => after.error == Some(e),
        None => after.error is Some && after.error->0@ == "failed to parse H.264 SPS for MP4 init"@,
    }
}

impl MuxerView {
    /// The parameter sets after a frame: the last of each wins. An IDR stays seen.
    pub open spec fn harvested(self, frame: Seq<u8>) -> mp4::BuilderView {
        let nals = annexb::annexb_nals(frame);
        mp4::BuilderView {
            sps: mp4::last_of_type(nals, NAL_SPS, self.sets.sps),
            pps: mp4::last_of_type(nals, NAL_PPS, self.sets.pps),
            seen_idr: self.sets.seen_idr || mp4::has_type(nals, NAL_IDR),
        }
    }

    /// The frame is not written: it holds no picture, or the file has not started and it cannot
    /// start there.
    pub open spec fn skips(self, frame: Seq<u8>) -> bool {
        let nals = annexb::annexb_nals(frame);
        let sets = self.harvested(frame);
        ||| !has_picture(nals)
        ||| !self.file.init && !(mp4::has_type(nals, NAL_IDR) && sets.sps is Some && sets.pps is Some)
    }

    /// The picture size that starts the file.
    pub open spec fn size(self, frame: Seq<u8>) -> sps::SpsSize {
        size_of(self.harvested(frame))
    }

    /// The sample entry that starts the file.
    pub open spec fn entry(self, frame: Seq<u8>) -> Seq<u8> {
        entry_of(self.harvested(frame))
    }

    /// The file with its init segment, where this frame brings it.
    pub open spec fn begun(self, frame: Seq<u8>) -> mp4::MuxView {
        if self.file.init {
            self.file
        } else {
            opened(self.file, self.harvested(frame))
        }
    }

    /// The file with the frame.
    pub open spec fn grown(self, frame: Seq<u8>, pts_us: u64) -> mp4::MuxView {
        let nals = annexb::annexb_nals(frame);
        handed_over(self.begun(frame)).with_sample(
            mp4::avcc_sample(nals),
            mp4::has_type(nals, NAL_IDR),
            pts_us,
        )
    }

    /// What every writer keeps between frames: everything written was handed over, and a file that
    /// has started has seen an IDR.
    pub open spec fn wf(self) -> bool {
        &&& self.file.wf()
        &&& self.file.out.len() == 0
        &&& self.file.audio is None
        &&& self.file.init || self.file.pending is None
        &&& self.file.init ==> self.sets.seen_idr
    }

    /// The counters have room for the frame.
    pub open spec fn room(self, frame: Seq<u8>) -> bool {
        &&& self.file.fragments() < u32::MAX
        &&& self.file.committed() + 1004 + self.entry(frame).len() + mp4::avcc_sample(
            annexb::annexb_nals(frame),
        ).len() <= u64::MAX
    }
}

/// A file whose written bytes were handed over.
pub open spec fn handed_over(f: mp4::MuxView) -> mp4::MuxView {
    mp4::MuxView { out: seq![], ..f }
}

impl View for Muxer {
    type V = MuxerView;

    closed spec fn view(&self) -> MuxerView {
        MuxerView { file: self.writer@, sets: self.builder@ }
    }
}

impl Muxer {
    /// A writer of an empty file.
    pub fn new() -> (m: Muxer)
        ensures
            m@.file == mp4::MuxView::fresh(),
            m@.sets == (mp4::BuilderView { sps: None, pps: None, seen_idr: false }),
            m@.wf(),
    {
        Muxer { writer: FragmentWriter::new(), builder: H264SampleBuilder::new() }
    }

    /// The bytes written and held back together.
    pub fn committed(&self) -> (n: u64)
        requires
            self@.wf(),
        ensures
            n == self@.file.committed(),
    {
        self.writer.committed()
    }

    /// The fragments written and held back together.
    pub fn fragments(&self) -> (n: u32)
        requires
            self@.wf(),
        ensures
            n == self@.file.fragments(),
    {
        self.writer.fragments()
    }

    /// Whether a frame with this timestamp can be timed.
    pub fn is_timeable(&self, pts_us: u64) -> (b: bool)
        ensures
            b == self@.file.timeable(pts_us),
    {
        self.writer.is_timeable(pts_us)
    }

    /// Whether the end of the last frame can be told.
    pub fn is_closable(&self) -> (b: bool)
        ensures
            b == self@.file.closable(),
    {
        self.writer.is_closable()
    }

    /// Take a queued frame. Output starts at the first keyframe with parameter sets; earlier
    /// frames are discarded.
    pub fn mux(&mut self, shared: &mut RecShared, frame: &[u8], pts_us: u64) -> (r: Muxed)
        requires
            old(self)@.wf(),
            old(self)@.room(frame@),
            old(self)@.file.timeable(pts_us),
        ensures
            final(self)@.wf(),
            final(self)@.sets == old(self)@.harvested(frame@),
            r is Skipped <==> old(self)@.skips(frame@),
            r is Unreadable <==> !old(self)@.skips(frame@) && !old(self)@.file.init && old(self)@.size(frame@) is Malformed,
            r is OutOfRange <==> !old(self)@.skips(frame@) && !old(self)@.file.init && old(self)@.size(frame@) is OutOfRange,
            !(r is Wrote) ==> final(self)@.file == old(self)@.file,
            r matches Muxed::Wrote { init, data } ==> {
                &&& init@ == old(self)@.begun(frame@).out
                &&& data@ == old(self)@.grown(frame@, pts_us).out
                &&& final(self)@.file == handed_over(old(self)@.grown(frame@, pts_us))
            },
            r is Unreadable ==> unreadable(*old(shared), *final(shared)),
            r is Skipped || r is OutOfRange ==> *final(shared) == *old(shared),
            r is Wrote ==> *final(shared) == if old(self)@.file.init {
                *old(shared)
            } else {
                sized(*old(shared), old(self)@.harvested(frame@))
            },
    {
        let ghost before = self@;
        let sample = match self.builder.build_sample(frame) {
            Some(s) => s,
            None => {
                return Muxed::Skipped;
            },
        };
        let ghost sets = self.builder@;
        assert(sets == before.harvested(frame@));
        let mut init: Vec<u8> = Vec::new();
        if !self.writer.init_written() {
            if !sample.sync || !self.builder.have_parameter_sets() {
                return Muxed::Skipped;
            }
            match self.open_file(shared) {
                Muxed::Wrote { init: segment, .. } => {
                    init = segment;
                },
                other => {
                    return other;
                },
            }
        }
        let data = self.append(sample.data, sample.sync, pts_us);
        Muxed::Wrote { init, data }
    }

    /// Write the init segment.
    fn open_file(&mut self, shared: &mut RecShared) -> (r: Muxed)
        requires
            old(self)@.wf(),
            !old(self)@.file.init,
            old(self)@.sets.sps is Some && old(self)@.sets.pps is Some,
            old(self)@.sets.seen_idr,
            old(self)@.file.committed() + 896 + entry_of(old(self)@.sets).len() <= u64::MAX,
        ensures
            final(self)@.wf(),
            final(self)@.sets == old(self)@.sets,
            !(r is Skipped),
            r is Unreadable <==> size_of(old(self)@.sets) is Malformed,
            r is OutOfRange <==> size_of(old(self)@.sets) is OutOfRange,
            r matches Muxed::Wrote { init, .. } ==> {
                &&& init@ == opened(old(self)@.file, old(self)@.sets).out
                &&& final(self)@.file == handed_over(opened(old(self)@.file, old(self)@.sets))
                &&& final(self)@.file.committed() <= old(self)@.file.committed() + 896 + entry_of(
                    old(self)@.sets,
                ).len()
                &&& final(self)@.file.fragments() == old(self)@.file.fragments()
                &&& *final(shared) == sized(*old(shared), old(self)@.sets)
            },
            !(r is Wrote) ==> final(self)@.file == old(self)@.file,
            r is Unreadable ==> unreadable(*old(shared), *final(shared)),
            r is OutOfRange ==> *final(shared) == *old(shared),
    {
        let ghost before = self@;
        if !self.builder.size_in_range() {
            return Muxed::OutOfRange;
        }
        let cfg = match self.builder.track_config() {
            Some(c) => c,
            None => {
                let _ = shared.set_error("failed to parse H.264 SPS for MP4 init".to_owned());
                return Muxed::Unreadable;
            },
        };
        shared.width = cfg.width;
        shared.height = cfg.height;
        proof {
            mp4::moov_length(cfg.sample_entry@, cfg.width, cfg.height, before.file.audio);
        }
        self.writer.write_init(&cfg);
        let init = self.writer.take_output();
        Muxed::Wrote { init, data: Vec::new() }
    }

    /// Write what a sample lets go.
    fn append(&mut self, data: Vec<u8>, sync: bool, pts_us: u64) -> (out: Vec<u8>)
        requires
            old(self)@.wf(),
            old(self)@.file.init,
            old(self)@.file.timeable(pts_us),
            old(self)@.file.fragments() < u32::MAX,
            old(self)@.file.committed() + 108 + data@.len() <= u64::MAX,
        ensures
            final(self)@.wf(),
            final(self)@.sets == old(self)@.sets,
            out@ == old(self)@.file.with_sample(data@, sync, pts_us).out,
            final(self)@.file == handed_over(old(self)@.file.with_sample(data@, sync, pts_us)),
    {
        self.writer.push_sample(data, sync, pts_us);
        self.writer.take_output()
    }

    /// The frame was written out: the counters follow. The sample held back is counted too.
    pub fn tell_progress(&self, shared: &mut RecShared)
        requires
            self@.wf(),
        ensures
            *final(shared) == (RecShared {
                muxed: (self@.file.stats.samples + 1) as u64,
                sync_frames: self@.file.stats.sync_samples,
                bytes: self@.file.stats.bytes,
                ..*old(shared)
            }),
    {
        let st = self.writer.stats();
        shared.muxed = st.samples + 1;
        shared.sync_frames = st.sync_samples;
        shared.bytes = st.bytes;
    }

    /// Close the file: the counters and the bytes that are still to be appended.
    pub fn finish(self) -> (r: (Mp4Stats, Vec<u8>))
        requires
            self@.wf(),
            self@.file.closable(),
        ensures
            r.0 == self@.file.closed_file().stats,
            r.1@ == self@.file.closed_file().out,
    {
        self.writer.finish()
    }
}

/// Why a file without a frame is no recording.
pub open spec fn nothing_recorded() -> Seq<char> {
    "no recordable H.264 frames received (the session must produce a single full-frame H.264 stream; JPEG and striped modes cannot be recorded)"@
}

/// The recording's final status, and whether its file is to be removed: one without a frame is no
/// recording.
pub fn close(
    shared: &mut RecShared,
    stats: Mp4Stats,
    path: String,
    mode: RecordingMode,
) -> (r: (RecordingStatus, bool))
    ensures
        r.1 == (stats.samples == 0),
        *final(shared) == (RecShared { error: final(shared).error, ..*old(shared) }),
        stats.samples > 0 || old(shared).error is Some ==> final(shared).error == old(shared).error,
        stats.samples == 0 && old(shared).error is None ==> final(shared).error is Some && final(shared).error->0@ == nothing_recorded(),
        !r.0.active,
        r.0.path == path,
        (r.0.backend@, r.0.mode@) == mode.texts(),
        r.0.frames == stats.samples,
        r.0.sync_frames == stats.sync_samples,
        r.0.dropped == old(shared).dropped,
        r.0.skipped_non_h264 == old(shared).skipped_non_h264,
        r.0.bytes == stats.bytes,
        r.0.duration_us == stats.duration_us,
        r.0.width == old(shared).width,
        r.0.height == old(shared).height,
        r.0.error == final(shared).error,
{
    if stats.samples == 0 {
        let _ = shared.set_error(
            "no recordable H.264 frames received (the session must produce a single full-frame H.264 stream; JPEG and striped modes cannot be recorded)".to_owned(),
        );
    }
    let error = match &shared.error {
        Some(e) => Some(e.clone()),
        None => None,
    };
    let (backend, mode_name) = mode.names();
    let status = RecordingStatus {
        active: false,
        path,
        backend,
        mode: mode_name,
        frames: stats.samples,
        sync_frames: stats.sync_samples,
        dropped: shared.dropped,
        skipped_non_h264: shared.skipped_non_h264,
        bytes: stats.bytes,
        duration_us: stats.duration_us,
        width: shared.width,
        height: shared.height,
        error,
    };
    (status, stats.samples == 0)
}

/// A file starts at a keyframe: the frame that brings the init segment can be decoded on its own,
/// and is the first sample held back.
pub proof fn files_start_at_a_keyframe(m: MuxerView, frame: Seq<u8>, pts_us: u64)
    requires
        m.wf(),
        !m.file.init,
        !m.skips(frame),
        m.size(frame) is Pixels,
    ensures
        m.grown(frame, pts_us).init,
        m.grown(frame, pts_us).pending matches Some(s) && s.sync,
        m.grown(frame, pts_us).stats.samples == m.file.stats.samples,
{
}

/// A written frame is never taken back, and a frame lets one before it go at most.
pub proof fn written_frames_stay(m: MuxerView, frame: Seq<u8>, pts_us: u64)
    requires
        m.wf(),
        m.room(frame),
        m.file.init,
    ensures
        m.grown(frame, pts_us).init,
        m.grown(frame, pts_us).stats.samples >= m.file.stats.samples,
        m.grown(frame, pts_us).stats.samples <= m.file.stats.samples + 1,
{
}

} // verus!
