//! The decisions of the capture loop shared by the command line and the
//! launcher: which frames are published, what is reported, what is counted.
use vstd::prelude::*;

use crate::output::{
    accepted_count, frame_parts, lemma_accepted_count_push, BgraFrame, OutputError, Publisher,
    SharedTextureOutput,
};

verus! {

/// The number of bytes a `stride * height` frame occupies, clamped to the
/// largest `usize`.
pub open spec fn needed_bytes(stride: u32, height: u32) -> int {
    let n = stride as int * height as int;
    if n > usize::MAX as int {
        usize::MAX as int
    } else {
        n
    }
}

/// True iff a buffer of `data_len` bytes holds a whole `stride * height` frame.
pub open spec fn within_bounds(data_len: int, stride: u32, height: u32) -> bool {
    data_len >= needed_bytes(stride, height)
}

/// The bounds check is exactly "at least `stride * height` bytes": such a
/// buffer always passes, a shorter one (below the largest `usize`) never
/// does, and a buffer that passes still passes when it is larger.
pub proof fn lemma_bounds_are_exact(data_len: int, larger: int, stride: u32, height: u32)
    requires
        0 <= data_len <= larger,
    ensures
        stride as int * height as int <= data_len ==> within_bounds(data_len, stride, height),
        data_len < stride as int * height as int && data_len < usize::MAX ==> !within_bounds(
            data_len,
            stride,
            height,
        ),
        within_bounds(data_len, stride, height) ==> within_bounds(larger, stride, height),
{
}

/// True if `data_len` is large enough to hold a `stride * height` BGRA frame.
pub fn frame_within_bounds(data_len: usize, stride: u32, height: u32) -> (r: bool)
    ensures
        r == within_bounds(data_len as int, stride, height),
{
    match (stride as usize).checked_mul(height as usize) {
        Some(needed) => data_len >= needed,
        None => data_len == usize::MAX,
    }
}

/// True iff `frame`'s buffer holds the whole frame its stride and height describe.
pub open spec fn frame_is_whole(frame: &BgraFrame) -> bool {
    within_bounds(frame.data@.len() as int, frame.stride, frame.height)
}

/// A frame whose buffer holds at least `stride * height` bytes is whole, and
/// so is handed to the backend; one with fewer (below the largest `usize`)
/// is not.
pub proof fn lemma_whole_frame(frame: &BgraFrame)
    ensures
        frame.stride as int * frame.height as int <= frame.data@.len() ==> frame_is_whole(frame),
        frame.data@.len() < frame.stride as int * frame.height as int && frame.data@.len()
            < usize::MAX ==> !frame_is_whole(frame),
{
    lemma_bounds_are_exact(
        frame.data@.len() as int,
        frame.data@.len() as int,
        frame.stride,
        frame.height,
    );
}

/// What publishing a whole frame gives, for what the backend returned:
/// `Ok(true)` when it accepted the frame, its error when it refused it.
pub open spec fn publish_outcome_of(res: Result<(), OutputError>) -> Result<bool, OutputError> {
    match res {
        Ok(_) => Ok(true),
        Err(e) => Err(e),
    }
}

/// Turns what the backend returned for a whole frame into the result of
/// handling it: `Ok(true)` when accepted, the backend's error when refused.
pub fn publish_outcome(res: Result<(), OutputError>) -> (r: Result<bool, OutputError>)
    ensures
        r == publish_outcome_of(res),
{
    match res {
        Ok(_) => Ok(true),
        Err(e) => Err(e),
    }
}

/// What the backend returned, given what handling a whole frame returned.
pub open spec fn answer_of(r: Result<bool, OutputError>) -> Result<(), OutputError> {
    match r {
        Ok(_) => Ok(()),
        Err(e) => Err(e),
    }
}

/// Validates one frame and publishes it. Returns whether it was published:
/// a frame whose buffer is too short is skipped and `out` is left as it was;
/// a whole frame is handed to `out`'s backend once, and the result is
/// `Ok(true)` when the backend accepted it and its error when it refused it.
pub fn handle_video_frame<O: SharedTextureOutput>(out: &mut Publisher<O>, frame: &BgraFrame) -> (r:
    Result<bool, OutputError>)
    ensures
        !frame_is_whole(frame) ==> (r matches Ok(false)) && *final(out) == *old(out),
        frame_is_whole(frame) ==> !(r matches Ok(false)) && final(out).log() == old(
            out,
        ).log().push((frame_parts(frame), answer_of(r))),
{
    if !frame_within_bounds(frame.data.len(), frame.stride, frame.height) {
        return Ok(false);
    }
    let res = out.publish(frame);
    match res {
        Ok(u) => {
            assert(u == ());
        },
        Err(_) => {},
    }
    publish_outcome(res)
}

/// Outcome of one capture attempt.
#[derive(Debug)]
pub enum CaptureSignal {
    /// A video frame was delivered.
    Got,
    /// Timeout / non-video frame: keep polling.
    Idle,
    /// The source reported a capture error.
    Error,
}

/// What is reported once a capture attempt is over.
#[derive(Debug, PartialEq, Eq, Structural)]
pub enum CaptureNotice {
    /// Nothing to report.
    Quiet,
    /// The frame that was delivered could not be published.
    PublishFailed,
    /// The source reported a capture error.
    CaptureFailed,
}

/// What is reported after a capture attempt that ended with `signal`, when
/// publishing the delivered frame failed (`publish_failed`) or not.
pub fn capture_notice(signal: &CaptureSignal, publish_failed: bool) -> (r: CaptureNotice)
    ensures
        r == (match signal {
            CaptureSignal::Got => if publish_failed {
                CaptureNotice::PublishFailed
            } else {
                CaptureNotice::Quiet
            },
            CaptureSignal::Idle => CaptureNotice::Quiet,
            CaptureSignal::Error => CaptureNotice::CaptureFailed,
        }),
{
    match signal {
        CaptureSignal::Got => if publish_failed {
            CaptureNotice::PublishFailed
        } else {
            CaptureNotice::Quiet
        },
        CaptureSignal::Idle => CaptureNotice::Quiet,
        CaptureSignal::Error => CaptureNotice::CaptureFailed,
    }
}

/// The frame counter after one more published frame (it wraps around, as an
/// atomic `fetch_add` does).
pub open spec fn next_count(n: u64) -> u64 {
    if n == u64::MAX {
        0
    } else {
        (n + 1) as u64
    }
}

/// What the backend returned for the frame a report is about.
pub open spec fn report_answer(r: FrameReport) -> Result<(), OutputError> {
    match r.error {
        Some(e) => Err(e),
        None => Ok(()),
    }
}

/// The frame counter after a frame that was (`published`) or was not
/// published.
pub open spec fn count_step(n: u64, published: bool) -> u64 {
    if published {
        next_count(n)
    } else {
        n
    }
}

/// The frame counter after frames with these `published` flags, starting at `n`.
pub open spec fn count_after(n: u64, published: Seq<bool>) -> u64
    decreases published.len(),
{
    if published.len() == 0 {
        n
    } else {
        count_step(count_after(n, published.drop_last()), published.last())
    }
}

/// The number of frames among `published` that were published.
pub open spec fn published_total(published: Seq<bool>) -> nat
    decreases published.len(),
{
    if published.len() == 0 {
        0
    } else {
        published_total(published.drop_last()) + if published.last() {
            1nat
        } else {
            0nat
        }
    }
}

/// Counting from zero, the frame counter is the number of published frames
/// (modulo 2^64, as the counter wraps like an atomic `fetch_add`).
pub proof fn lemma_counter_counts_published(published: Seq<bool>)
    ensures
        count_after(0, published) as int == published_total(published) as int
            % 0x1_0000_0000_0000_0000,
    decreases published.len(),
{
    if published.len() > 0 {
        lemma_counter_counts_published(published.drop_last());
    }
}

/// The state the capture loop keeps between frames.
pub struct FrameLoop {
    /// Dimensions of the last frame announced in verbose mode.
    pub last_width: u32,
    pub last_height: u32,
    /// Whether resolution changes and skipped frames are announced.
    pub verbose: bool,
    /// Frames published so far.
    pub frames: u64,
}

/// What handling one delivered frame produced.
#[derive(Debug)]
pub struct FrameReport {
    /// Announce the frame's dimensions (verbose mode, dimensions changed).
    pub announce_dims: bool,
    /// The frame was published.
    pub published: bool,
    /// Announce that a malformed frame was skipped (verbose mode).
    pub announce_skip: bool,
    /// Publishing the frame failed with this error.
    pub error: Option<OutputError>,
}

impl FrameLoop {
    /// The state before the first frame: no dimensions seen, nothing published.
    pub fn new(verbose: bool) -> (r: FrameLoop)
        ensures
            r.last_width == 0,
            r.last_height == 0,
            r.verbose == verbose,
            r.frames == 0,
    {
        FrameLoop { last_width: 0, last_height: 0, verbose, frames: 0 }
    }

    /// Handles one delivered frame: announces new dimensions in verbose mode,
    /// publishes the frame if its buffer is whole, and counts it if published.
    pub fn on_frame<O: SharedTextureOutput>(
        &mut self,
        out: &mut Publisher<O>,
        frame: &BgraFrame,
    ) -> (r: FrameReport)
        ensures
            r.announce_dims == (old(self).verbose && (frame.width != old(self).last_width
                || frame.height != old(self).last_height)),
            r.announce_dims ==> final(self).last_width == frame.width && final(self).last_height
                == frame.height,
            !r.announce_dims ==> final(self).last_width == old(self).last_width
                && final(self).last_height == old(self).last_height,
            final(self).verbose == old(self).verbose,
            r.published == (frame_is_whole(frame) && r.error is None),
            !frame_is_whole(frame) ==> r.error is None && *final(out) == *old(out),
            r.announce_skip == (old(self).verbose && !frame_is_whole(frame)),
            final(self).frames == count_step(old(self).frames, r.published),
            frame_is_whole(frame) ==> final(out).log() == old(out).log().push(
                (frame_parts(frame), report_answer(r)),
            ),
            final(self).frames as int == (old(self).frames as int + accepted_count(final(out).log())
                - accepted_count(old(out).log())) % 0x1_0000_0000_0000_0000,
    {
        let announce_dims = self.verbose && (frame.width != self.last_width || frame.height
            != self.last_height);
        if announce_dims {
            self.last_width = frame.width;
            self.last_height = frame.height;
        }
        let outcome = handle_video_frame(out, frame);
        proof {
            if frame_is_whole(frame) {
                lemma_accepted_count_push(old(out).log(), (frame_parts(frame), answer_of(outcome)));
            }
        }
        self.settle(announce_dims, outcome)
    }

    /// Records how handling a frame turned out (`outcome`, as from
    /// `handle_video_frame`): a published frame is counted, a skipped one is
    /// announced in verbose mode, a failure is reported with its error.
    pub fn settle(&mut self, announce_dims: bool, outcome: Result<bool, OutputError>) -> (r:
        FrameReport)
        ensures
            r.announce_dims == announce_dims,
            r.published == (outcome matches Ok(true)),
            r.announce_skip == (old(self).verbose && outcome matches Ok(false)),
            r.error == (match outcome {
                Err(e) => Some(e),
                Ok(_) => None::<OutputError>,
            }),
            final(self).frames == count_step(old(self).frames, r.published),
            final(self).last_width == old(self).last_width,
            final(self).last_height == old(self).last_height,
            final(self).verbose == old(self).verbose,
    {
        match outcome {
            Ok(true) => {
                self.frames = if self.frames == u64::MAX {
                    0
                } else {
                    self.frames + 1
                };
                FrameReport { announce_dims, published: true, announce_skip: false, error: None }
            },
            Ok(false) => FrameReport {
                announce_dims,
                published: false,
                announce_skip: self.verbose,
                error: None,
            },
            Err(e) => FrameReport {
                announce_dims,
                published: false,
                announce_skip: false,
                error: Some(e),
            },
        }
    }
}

} // verus!
