use nl_host::decoder::{pack_plane, VideoDecoder};

#[test]
fn pack_plane_strips_stride_padding() {
    let data = vec![1, 2, 99, 99, 3, 4, 99, 99];
    let packed = pack_plane(&data, 4, 2, 2).unwrap();
    assert_eq!(packed, vec![1, 2, 3, 4]);
}

#[test]
fn pack_plane_accepts_exact_fit_and_refuses_short_planes() {
    let data = vec![7, 8, 9, 10];
    assert_eq!(pack_plane(&data, 2, 2, 2).unwrap(), vec![7, 8, 9, 10]);
    assert!(pack_plane(&data, 4, 2, 2).is_none());
    assert!(pack_plane(&data, 2, 2, 3).is_none());
    assert_eq!(pack_plane(&data, 2, 0, 0).unwrap(), Vec::<u8>::new());
}

#[test]
fn decoder_starts_clean() {
    let d = VideoDecoder::new(0).unwrap();
    assert_eq!(d.buffered_bytes(), 0);
}

#[test]
fn partial_input_stays_buffered() {
    let mut d = VideoDecoder::new(0).unwrap();
    // A start code and the head of an SPS: no complete NAL unit yet.
    let frames = d.decode(&[0, 0, 0, 1, 0x67, 0x42], 10);
    assert!(frames.is_empty());
    assert_eq!(d.buffered_bytes(), 6);
}

#[test]
fn garbage_nal_units_produce_no_frames_and_no_panic() {
    let mut d = VideoDecoder::new(0).unwrap();
    let mut stream = Vec::new();
    for i in 0..3u8 {
        stream.extend_from_slice(&[0, 0, 0, 1]);
        stream.extend_from_slice(&[0x61, i, i, i]);
    }
    let frames = d.decode(&stream, 100);
    assert!(frames.is_empty());
}

#[test]
fn watchdog_swallows_the_stalled_call() {
    let mut d = VideoDecoder::new(0).unwrap();
    let _ = d.decode(&[0, 0, 0, 1, 0x61, 1], 100);
    // More than two seconds without an output frame: this call only
    // resets the decoder.
    let frames = d.decode(&[0, 0, 0, 1, 0x61, 2, 0, 0, 0, 1], 5000);
    assert!(frames.is_empty());
}
