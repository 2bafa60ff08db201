use nl_host::decoder::YuvFrame;
use nl_host::frame::{FrameBuffer, FrameData};
use nl_host::pipeline::process_decoded_frames;

fn frame(width: u32, height: u32, fill: u8) -> FrameData {
    let w = width as usize;
    let h = height as usize;
    FrameData {
        width,
        height,
        y_plane: vec![fill; w * h],
        u_plane: vec![fill; (w / 2) * (h / 2)],
        v_plane: vec![fill; (w / 2) * (h / 2)],
        y_stride: w,
        uv_stride: w / 2,
    }
}

#[test]
fn slot_starts_empty() {
    let mut fb = FrameBuffer::new();
    assert_eq!(fb.get_count(), 0);
    assert!(fb.consume().is_none());
}

#[test]
fn push_reports_whether_a_frame_was_dropped() {
    let mut fb = FrameBuffer::new();
    assert!(!fb.push(frame(2, 2, 1)));
    // The slot was occupied: the first frame is skipped.
    assert!(fb.push(frame(2, 2, 2)));
    assert_eq!(fb.get_count(), 2);
}

#[test]
fn latest_wins_over_an_interleaving() {
    let mut fb = FrameBuffer::new();
    fb.push(frame(2, 2, 1));
    fb.push(frame(2, 2, 2));
    let got = fb.consume().unwrap();
    // The newest of the two pushes is the one consumed.
    assert_eq!(got.y_plane[0], 2);
    assert!(fb.consume().is_none());
    fb.push(frame(2, 2, 3));
    let got = fb.consume().unwrap();
    assert_eq!(got.y_plane[0], 3);
    // The consumed frames (2, 3) are a subsequence of the pushes (1, 2, 3).
    assert_eq!(fb.get_count(), 3);
}

#[test]
fn default_is_a_fresh_buffer() {
    let mut fb = FrameBuffer::default();
    assert_eq!(fb.get_count(), 0);
    assert!(fb.consume().is_none());
}

fn yuv(width: u32, height: u32, fill: u8) -> YuvFrame {
    let w = width as usize;
    let h = height as usize;
    YuvFrame {
        width,
        height,
        y_plane: vec![fill; w * h],
        u_plane: vec![fill; (w / 2) * (h / 2)],
        v_plane: vec![fill; (w / 2) * (h / 2)],
        y_stride: w,
        uv_stride: w / 2,
    }
}

#[test]
fn decoded_frames_land_in_the_slot_newest_last() {
    let mut fb = FrameBuffer::new();
    let mut count = 0u64;
    let stored = process_decoded_frames(vec![yuv(2, 2, 1), yuv(2, 2, 9)], &mut fb, &mut count);
    assert_eq!(stored, 2);
    assert_eq!(count, 2);
    assert_eq!(fb.get_count(), 2);
    let got = fb.consume().unwrap();
    assert_eq!(got.y_plane[0], 9);
}

#[test]
fn empty_batch_changes_nothing() {
    let mut fb = FrameBuffer::new();
    fb.push(frame(2, 2, 5));
    let mut count = 0u64;
    let stored = process_decoded_frames(Vec::new(), &mut fb, &mut count);
    assert_eq!(stored, 0);
    assert_eq!(count, 0);
    assert_eq!(fb.consume().unwrap().y_plane[0], 5);
}
