use nl_host::nal::{is_keyframe, NalSplitter};

const SC: [u8; 4] = [0, 0, 0, 1];

fn stream_24() -> Vec<u8> {
    // Three NAL units inside a 24-byte Annex-B prefix: an SPS, a PPS and
    // the start of an IDR slice that is still incomplete.
    let mut s = Vec::new();
    s.extend_from_slice(&SC);
    s.extend_from_slice(&[0x67, 0x42, 0x00, 0x1f]); // SPS
    s.extend_from_slice(&SC);
    s.extend_from_slice(&[0x68, 0xce]); // PPS
    s.extend_from_slice(&SC);
    s.extend_from_slice(&[0x65, 0x88, 0x80, 0x10]); // IDR slice, partial
    s.extend_from_slice(&[0xaa, 0xbb]);
    assert_eq!(s.len(), 24);
    s
}

#[test]
fn keyframe_types_are_idr_sps_pps() {
    assert!(is_keyframe(&[0, 0, 0, 1, 0x65])); // type 5
    assert!(is_keyframe(&[0, 0, 0, 1, 0x67])); // type 7
    assert!(is_keyframe(&[0, 0, 0, 1, 0x68])); // type 8
    assert!(!is_keyframe(&[0, 0, 0, 1, 0x61])); // type 1
    assert!(!is_keyframe(&[0, 0, 0, 1])); // too short
}

#[test]
fn splitter_emits_units_between_start_codes() {
    let mut sp = NalSplitter::new();
    let nals = sp.push_chunk(&stream_24());
    assert_eq!(nals.len(), 2);
    assert_eq!(nals[0], vec![0, 0, 0, 1, 0x67, 0x42, 0x00, 0x1f]);
    assert_eq!(nals[1], vec![0, 0, 0, 1, 0x68, 0xce]);
    // The partial IDR unit stays buffered.
    assert_eq!(sp.buffered_len(), 10);
}

#[test]
fn framing_replay_byte_by_byte_matches_whole() {
    let stream = stream_24();
    let mut whole = NalSplitter::new();
    let whole_nals = whole.push_chunk(&stream);

    let mut sp = NalSplitter::new();
    let mut collected: Vec<Vec<u8>> = Vec::new();
    for b in &stream {
        let nals = sp.push_chunk(&[*b]);
        collected.extend(nals);
        // After each byte, what has come out is a prefix of the
        // whole-stream result.
        assert!(collected.len() <= whole_nals.len());
        for (i, nal) in collected.iter().enumerate() {
            assert_eq!(*nal, whole_nals[i]);
        }
    }
    assert_eq!(collected, whole_nals);
    assert_eq!(sp.buffered_len(), whole.buffered_len());
}

#[test]
fn splitter_handles_chunk_split_inside_start_code() {
    let mut sp = NalSplitter::new();
    // First chunk ends in the middle of the second start code.
    let nals = sp.push_chunk(&[0, 0, 0, 1, 0x41, 0x10, 0, 0]);
    assert_eq!(nals.len(), 0);
    let nals = sp.push_chunk(&[0, 1, 0x42]);
    assert_eq!(nals.len(), 1);
    assert_eq!(nals[0], vec![0, 0, 0, 1, 0x41, 0x10]);
}

#[test]
fn splitter_discards_garbage_before_first_start_code() {
    let mut sp = NalSplitter::new();
    let nals = sp.push_chunk(&[0xde, 0xad, 0xbe, 0xef, 0xde, 0xad]);
    assert_eq!(nals.len(), 0);
    // Only three bytes are retained while no start code is in sight.
    assert_eq!(sp.buffered_len(), 3);
    let nals = sp.push_chunk(&[0, 0, 0, 1, 0x41, 0, 0, 0, 1]);
    assert_eq!(nals.len(), 1);
    assert_eq!(nals[0], vec![0, 0, 0, 1, 0x41]);
}
