use nl_host::audio::{
    decode_pcm_samples, parse_audio_header, parse_audio_packet_header, AudioError, AudioPacket,
    SampleQueue, MAX_AUDIO_BODY,
};

#[test]
fn audio_header_parses_after_magic() {
    let mut h = Vec::new();
    h.extend_from_slice(b"AUDIO\0");
    h.extend_from_slice(&48000u32.to_be_bytes());
    h.push(2);
    h.push(1);
    let parsed = parse_audio_header(&h).unwrap();
    assert_eq!(parsed.sample_rate, 48000);
    assert_eq!(parsed.channels, 2);
    assert_eq!(parsed.codec_type, 1);
}

#[test]
fn bad_magic_is_rejected() {
    let mut h = Vec::new();
    h.extend_from_slice(b"AUDIX\0");
    h.extend_from_slice(&[0u8; 6]);
    assert_eq!(parse_audio_header(&h).unwrap_err(), AudioError::BadMagic);
}

#[test]
fn audio_packet_header_parses_pts_and_size() {
    let mut h = Vec::new();
    h.extend_from_slice(&7u64.to_be_bytes());
    h.extend_from_slice(&640u32.to_be_bytes());
    assert_eq!(parse_audio_packet_header(&h).unwrap(), (7, 640));

    let mut h = Vec::new();
    h.extend_from_slice(&0u64.to_be_bytes());
    h.extend_from_slice(&(MAX_AUDIO_BODY + 1).to_be_bytes());
    assert_eq!(parse_audio_packet_header(&h).unwrap_err(), AudioError::OversizeBody);
}

#[test]
fn pcm_samples_decode_little_endian() {
    let bytes = [0x00, 0x00, 0xff, 0x7f, 0x00, 0x80, 0x01, 0x00, 0xff];
    let samples = decode_pcm_samples(&bytes);
    // The trailing odd byte is ignored.
    assert_eq!(samples, vec![0, 32767, -32768, 1]);
}

#[test]
fn pcm_float_conversion_stays_inside_unit_range() {
    // Downstream playback divides by 32768; every 16-bit sample lands in
    // [-1.0, 1.0), and only the most negative one touches the edge.
    for s in [0i16, 1, -1, 32767, -32768] {
        let f = s as f32 / 32768.0;
        assert!(f >= -1.0 && f < 1.0);
    }
    assert_eq!(0i16 as f32 / 32768.0, 0.0);
    assert_eq!(-32768i16 as f32 / 32768.0, -1.0);
}

#[test]
fn empty_queue_fills_the_request_with_zeros() {
    let mut q = SampleQueue::new(4096);
    let out = q.fill(512);
    assert_eq!(out.len(), 512);
    assert!(out.iter().all(|s| *s == 0));
    assert_eq!(q.len(), 0);
}

#[test]
fn queue_hands_samples_out_in_arrival_order() {
    let mut q = SampleQueue::new(4096);
    q.append(&[1, 2, 3, 4, 5]);
    let out = q.fill(3);
    assert_eq!(out, vec![1, 2, 3]);
    q.append(&[6, 7]);
    let out = q.fill(6);
    assert_eq!(out, vec![4, 5, 6, 7, 0, 0]);
}

#[test]
fn queue_drops_oldest_beyond_eight_thresholds() {
    let mut q = SampleQueue::new(2);
    let incoming: Vec<i16> = (0..20).collect();
    q.append(&incoming);
    assert_eq!(q.len(), 16);
    let out = q.fill(16);
    let expected: Vec<i16> = (4..20).collect();
    assert_eq!(out, expected);
}

#[test]
fn audio_packet_keeps_pts_and_payload() {
    let p = AudioPacket { pts: 42, data: vec![1, 2, 3] };
    let q = p.clone();
    assert_eq!(q.pts, 42);
    assert_eq!(q.data, vec![1, 2, 3]);
}

#[test]
fn audio_packet_at_the_size_limit_is_accepted() {
    let mut h = Vec::new();
    h.extend_from_slice(&1u64.to_be_bytes());
    h.extend_from_slice(&MAX_AUDIO_BODY.to_be_bytes());
    assert_eq!(parse_audio_packet_header(&h).unwrap(), (1, MAX_AUDIO_BODY));
}

#[test]
fn short_pcm_payloads_decode_to_nothing() {
    assert!(decode_pcm_samples(&[]).is_empty());
    assert!(decode_pcm_samples(&[0x42]).is_empty());
}
