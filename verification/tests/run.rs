use bucatini::output::{BgraFrame, OutputError, Publisher, SharedTextureOutput};
use bucatini::run::{
    capture_notice, frame_within_bounds, handle_video_frame, publish_outcome, CaptureNotice, CaptureSignal,
    FrameLoop,
};

/// Records how many frames a fake backend received.
struct MockOutput {
    published: usize,
}
impl SharedTextureOutput for MockOutput {
    fn publish(&mut self, _frame: &BgraFrame) -> Result<(), OutputError> {
        self.published += 1;
        Ok(())
    }
}

/// A backend that refuses every frame.
struct FailingOutput;
impl SharedTextureOutput for FailingOutput {
    fn publish(&mut self, _frame: &BgraFrame) -> Result<(), OutputError> {
        Err(OutputError { message: "send returned 3".to_string() })
    }
}

#[test]
fn bounds_rejects_short_buffer() {
    // 40 bytes/row * 10 rows = 400 needed
    assert!(!frame_within_bounds(399, 40, 10));
    assert!(frame_within_bounds(400, 40, 10));
}

#[test]
fn bounds_does_not_overflow() {
    assert!(!frame_within_bounds(0, u32::MAX, u32::MAX));
}

#[test]
fn bounds_edge_cases() {
    assert!(frame_within_bounds(0, 0, 1000));
    assert!(frame_within_bounds(0, 1000, 0));
    assert!(frame_within_bounds(usize::MAX, u32::MAX, u32::MAX));
}

#[test]
fn publishes_valid_frame() {
    let mut out = Publisher::new(MockOutput { published: 0 });
    let data = vec![0u8; 16]; // 2x2, stride 8 -> 16 bytes
    let frame = BgraFrame { data: &data, width: 2, height: 2, stride: 8 };
    assert!(handle_video_frame(&mut out, &frame).unwrap());
    assert_eq!(out.backend().published, 1);
}

#[test]
fn skips_malformed_frame() {
    let mut out = Publisher::new(MockOutput { published: 0 });
    let data = vec![0u8; 8]; // needs 16, has 8
    let frame = BgraFrame { data: &data, width: 2, height: 2, stride: 8 };
    assert!(!handle_video_frame(&mut out, &frame).unwrap());
    assert_eq!(out.backend().published, 0);
}

#[test]
fn publish_failure_is_returned() {
    let data = vec![0u8; 16];
    let frame = BgraFrame { data: &data, width: 2, height: 2, stride: 8 };
    let err = handle_video_frame(&mut Publisher::new(FailingOutput), &frame).unwrap_err();
    assert_eq!(err.message, "send returned 3");
}

#[test]
fn loop_counts_published_frames() {
    let mut out = Publisher::new(MockOutput { published: 0 });
    let mut lp = FrameLoop::new(false);
    let buf = vec![0u8; 16];
    for _ in 0..3 {
        let report = lp.on_frame(&mut out, &BgraFrame { data: &buf, width: 2, height: 2, stride: 8 });
        assert!(report.published);
        assert!(!report.announce_dims);
    }
    let short = vec![0u8; 4];
    let report = lp.on_frame(&mut out, &BgraFrame { data: &short, width: 2, height: 2, stride: 8 });
    assert!(!report.published && !report.announce_skip && report.error.is_none());
    assert_eq!(lp.frames, 3);
    assert_eq!(out.backend().published, 3);
}

#[test]
fn verbose_loop_announces_new_dimensions_and_skips() {
    let mut out = Publisher::new(MockOutput { published: 0 });
    let mut lp = FrameLoop::new(true);
    let buf = vec![0u8; 16];
    let frame = BgraFrame { data: &buf, width: 2, height: 2, stride: 8 };
    assert!(lp.on_frame(&mut out, &frame).announce_dims);
    assert!(!lp.on_frame(&mut out, &frame).announce_dims);
    let short = vec![0u8; 4];
    let r = lp.on_frame(&mut out, &BgraFrame { data: &short, width: 4, height: 2, stride: 16 });
    assert!(r.announce_dims && r.announce_skip && !r.published);
    assert_eq!((lp.last_width, lp.last_height), (4, 2));
    assert_eq!(lp.frames, 2);
}

#[test]
fn failed_publish_is_reported_not_counted() {
    let mut lp = FrameLoop::new(false);
    let buf = vec![0u8; 16];
    let r = lp.on_frame(&mut Publisher::new(FailingOutput), &BgraFrame { data: &buf, width: 2, height: 2, stride: 8 });
    assert!(!r.published);
    assert_eq!(r.error.unwrap().message, "send returned 3");
    assert_eq!(lp.frames, 0);
}

#[test]
fn notices_after_capture() {
    assert_eq!(capture_notice(&CaptureSignal::Got, true), CaptureNotice::PublishFailed);
    assert_eq!(capture_notice(&CaptureSignal::Got, false), CaptureNotice::Quiet);
    assert_eq!(capture_notice(&CaptureSignal::Idle, false), CaptureNotice::Quiet);
    assert_eq!(capture_notice(&CaptureSignal::Error, false), CaptureNotice::CaptureFailed);
}

#[test]
fn short_frame_between_whole_frames_is_not_counted() {
    let mut out = Publisher::new(MockOutput { published: 0 });
    let mut lp = FrameLoop::new(false);
    let bufs = [vec![0u8; 16], vec![0u8; 8], vec![0u8; 16]];
    for buf in &bufs {
        lp.on_frame(&mut out, &BgraFrame { data: buf, width: 2, height: 2, stride: 8 });
    }
    assert_eq!(lp.frames, 2);
    assert_eq!(out.backend().published, 2);
}

#[test]
fn backend_result_becomes_frame_result() {
    assert!(matches!(publish_outcome(Ok(())), Ok(true)));
    let e = publish_outcome(Err(OutputError { message: "refused".to_string() })).unwrap_err();
    assert_eq!(e.message, "refused");
}

#[test]
fn settle_counts_only_accepted_frames() {
    let mut lp = FrameLoop::new(true);
    let r = lp.settle(true, Ok(true));
    assert!(r.published && r.announce_dims && !r.announce_skip && r.error.is_none());
    let r = lp.settle(false, Ok(false));
    assert!(!r.published && r.announce_skip);
    let r = lp.settle(false, Err(OutputError { message: "x".to_string() }));
    assert!(!r.published && !r.announce_skip && r.error.unwrap().message == "x");
    assert_eq!(lp.frames, 1);
    lp.frames = u64::MAX;
    lp.settle(false, Ok(true));
    assert_eq!(lp.frames, 0);
}

#[test]
fn three_whole_frames_reach_the_backend_and_are_counted() {
    let mut lp = FrameLoop::new(false);
    let mut out = Publisher::new(MockOutput { published: 0 });
    let buf = vec![0u8; 16];
    for _ in 0..3 {
        lp.on_frame(&mut out, &BgraFrame { data: &buf, width: 2, height: 2, stride: 8 });
    }
    assert_eq!(lp.frames, 3);
    assert_eq!(out.into_backend().published, 3);
}
