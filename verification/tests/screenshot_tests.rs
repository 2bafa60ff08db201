use nl_host::frame::FrameData;
use nl_host::screenshot::{gather_yuv, screenshot_filename};

#[test]
fn filename_is_zero_padded() {
    assert_eq!(
        screenshot_filename(2024, 1, 5, 9, 30, 7),
        "screenshot_20240105_093007.png".as_bytes().to_vec()
    );
    assert_eq!(
        screenshot_filename(999, 12, 31, 23, 59, 59),
        "screenshot_09991231_235959.png".as_bytes().to_vec()
    );
}

#[test]
fn gather_interleaves_yuv_samples_per_pixel() {
    let frame = FrameData {
        width: 2,
        height: 2,
        y_plane: vec![10, 20, 30, 40],
        u_plane: vec![5],
        v_plane: vec![6],
        y_stride: 2,
        uv_stride: 1,
    };
    let out = gather_yuv(&frame).unwrap();
    assert_eq!(out, vec![10, 5, 6, 20, 5, 6, 30, 5, 6, 40, 5, 6]);
}

#[test]
fn gather_shares_chroma_across_each_two_by_two_cell() {
    let frame = FrameData {
        width: 4,
        height: 2,
        y_plane: (1..=8).collect(),
        u_plane: vec![100, 101],
        v_plane: vec![200, 201],
        y_stride: 4,
        uv_stride: 2,
    };
    let out = gather_yuv(&frame).unwrap();
    assert_eq!(
        out,
        vec![
            1, 100, 200, 2, 100, 200, 3, 101, 201, 4, 101, 201,
            5, 100, 200, 6, 100, 200, 7, 101, 201, 8, 101, 201,
        ]
    );
}

#[test]
fn gather_refuses_malformed_frames() {
    let odd = FrameData {
        width: 3,
        height: 2,
        y_plane: vec![0; 6],
        u_plane: vec![0; 1],
        v_plane: vec![0; 1],
        y_stride: 3,
        uv_stride: 1,
    };
    assert!(gather_yuv(&odd).is_none());
    let short = FrameData {
        width: 2,
        height: 2,
        y_plane: vec![0; 3],
        u_plane: vec![0; 1],
        v_plane: vec![0; 1],
        y_stride: 2,
        uv_stride: 1,
    };
    assert!(gather_yuv(&short).is_none());
}
