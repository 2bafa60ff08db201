use nl_host::wire::{
    encode_handshake, next_backoff, next_connect_backoff_ms, parse_video_header, receiver_step,
    ReceiverAction, ReceiverEvent, ReceiverState, WireError, MAX_VIDEO_BODY,
};

fn header(pts: u64, len: u32) -> Vec<u8> {
    let mut h = Vec::new();
    h.extend_from_slice(&pts.to_be_bytes());
    h.extend_from_slice(&len.to_be_bytes());
    h
}

#[test]
fn video_header_parses_pts_and_length() {
    let h = header(0x0102030405060708, 5);
    let parsed = parse_video_header(&h).unwrap();
    assert_eq!(parsed.pts_flags, 0x0102030405060708);
    assert_eq!(parsed.body_len, 5);
}

#[test]
fn oversize_body_is_a_desync() {
    let h = header(0, MAX_VIDEO_BODY + 1);
    assert_eq!(parse_video_header(&h).unwrap_err(), WireError::OversizeBody);
    let h = header(0, MAX_VIDEO_BODY);
    assert!(parse_video_header(&h).is_ok());
}

#[test]
fn handshake_line_is_exact() {
    assert_eq!(
        encode_handshake(8000000, 1080),
        "bitrate=8000000&max_size=1080\n".as_bytes().to_vec()
    );
}

#[test]
fn backoff_doubles_and_caps() {
    assert_eq!(next_backoff(1), 2);
    assert_eq!(next_backoff(2), 4);
    assert_eq!(next_backoff(4), 8);
    assert_eq!(next_backoff(8), 10);
    assert_eq!(next_backoff(10), 10);
    assert_eq!(next_connect_backoff_ms(500), 1000);
    assert_eq!(next_connect_backoff_ms(4000), 5000);
    assert_eq!(next_connect_backoff_ms(5000), 5000);
}

#[test]
fn reconnect_scenario_delivers_three_packets_and_resets_backoff() {
    // A peer accepts, takes the handshake, serves three packets, then
    // resets the connection.
    let mut st = ReceiverState::initial();
    assert_eq!(st, ReceiverState::Idle { delay_s: 1 });

    let (s, a) = receiver_step(st, ReceiverEvent::Connected);
    assert_eq!(a, ReceiverAction::SendHandshake);
    st = s;

    let mut delivered = 0;
    for _ in 0..3 {
        let (s, a) = receiver_step(st, ReceiverEvent::HeaderRead(header(0, 1024)));
        assert_eq!(a, ReceiverAction::ReadBody(1024));
        let (s, a) = receiver_step(s, ReceiverEvent::BodyRead);
        assert_eq!(a, ReceiverAction::OfferBody);
        let (s, a) = receiver_step(s, ReceiverEvent::QueueAccepted);
        assert_eq!(a, ReceiverAction::ReadHeader);
        delivered += 1;
        st = s;
    }
    assert_eq!(delivered, 3);

    // The reset: the read fails, the receiver sleeps its one-second
    // backoff and doubles it for next time.
    let (s, a) = receiver_step(st, ReceiverEvent::IoError);
    assert_eq!(a, ReceiverAction::AbortAndSleep(1));
    assert_eq!(s, ReceiverState::Idle { delay_s: 2 });

    // Reconnecting successfully brings the backoff back to one second.
    let (s, a) = receiver_step(s, ReceiverEvent::Connected);
    assert_eq!(a, ReceiverAction::SendHandshake);
    assert_eq!(s, ReceiverState::AwaitHeader { delay_s: 1, timeouts: 0 });
}

#[test]
fn oversize_header_aborts_the_connection() {
    let st = ReceiverState::AwaitHeader { delay_s: 1, timeouts: 0 };
    let (s, a) = receiver_step(st, ReceiverEvent::HeaderRead(header(0, MAX_VIDEO_BODY + 1)));
    assert_eq!(a, ReceiverAction::AbortAndSleep(1));
    assert!(matches!(s, ReceiverState::Idle { .. }));
}

#[test]
fn eleventh_consecutive_timeout_aborts() {
    let mut st = ReceiverState::AwaitHeader { delay_s: 1, timeouts: 0 };
    for expected in 1..=10u32 {
        let (s, a) = receiver_step(st, ReceiverEvent::TimedOut);
        assert_eq!(a, ReceiverAction::ReadHeader);
        assert_eq!(s, ReceiverState::AwaitHeader { delay_s: 1, timeouts: expected });
        st = s;
    }
    let (s, a) = receiver_step(st, ReceiverEvent::TimedOut);
    assert_eq!(a, ReceiverAction::AbortAndSleep(1));
    assert!(matches!(s, ReceiverState::Idle { .. }));
}

#[test]
fn full_queue_drops_the_packet_and_reads_on() {
    let st = ReceiverState::Deliver { delay_s: 4 };
    let (s, a) = receiver_step(st, ReceiverEvent::QueueFull);
    assert_eq!(a, ReceiverAction::ReadHeader);
    assert_eq!(s, ReceiverState::AwaitHeader { delay_s: 4, timeouts: 0 });
}

#[test]
fn closed_queue_and_stop_requests_end_the_receiver() {
    let (s, a) = receiver_step(ReceiverState::Deliver { delay_s: 1 }, ReceiverEvent::QueueClosed);
    assert_eq!(a, ReceiverAction::Exit);
    assert_eq!(s, ReceiverState::Stopped);
    let (s, a) = receiver_step(
        ReceiverState::AwaitHeader { delay_s: 1, timeouts: 0 },
        ReceiverEvent::StopRequested,
    );
    assert_eq!(a, ReceiverAction::Exit);
    assert_eq!(s, ReceiverState::Stopped);
}
