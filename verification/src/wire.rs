//! Video stream wire format and the receiver's connection state machine.
//!
//! A video packet is a 12-byte header — eight bytes of big-endian PTS and
//! flags, four bytes of big-endian body length — followed by the body. The
//! receiver state machine decides, for every connection event, what the
//! socket loop must do next: the socket work itself stays outside the
//! library.

use vstd::prelude::*;

use crate::bytes::{be_u32, be_u64, dec_digits, read_be_u32, read_be_u64, u32_to_dec};
use vstd::string::StringSliceAdditionalSpecFns;

verus! {

/// Bodies above this size mean the stream is desynchronised.
pub const MAX_VIDEO_BODY: u32 = 10485760;

/// Reconnect backoff cap, in seconds.
pub const MAX_BACKOFF_S: u64 = 10;

/// Consecutive read timeouts tolerated before the connection is abandoned.
pub const MAX_CONSECUTIVE_TIMEOUTS: u32 = 10;

/// A parsed video packet header.
#[derive(Debug)]
pub struct PacketHeader {
    pub pts_flags: u64,
    pub body_len: u32,
}

/// A violation of the video framing.
#[derive(PartialEq, Eq, Structural, Clone, Copy, Debug)]
pub enum WireError {
    OversizeBody,
}

/// Parse the 12-byte video packet header. The body length is rejected, and
/// the connection must be dropped, when it exceeds `MAX_VIDEO_BODY`.
pub fn parse_video_header(b: &[u8]) -> (r: Result<PacketHeader, WireError>)
    requires
        b@.len() == 12,
    ensures
        match r {
            Ok(h) => {
                &&& h.pts_flags == be_u64(b@.subrange(0, 8))
                &&& h.body_len == be_u32(b@[8], b@[9], b@[10], b@[11])
                &&& h.body_len <= MAX_VIDEO_BODY
            },
            Err(e) => {
                &&& e == WireError::OversizeBody
                &&& be_u32(b@[8], b@[9], b@[10], b@[11]) > MAX_VIDEO_BODY
            },
        },
{
    let pts_flags = read_be_u64(b, 0);
    let body_len = read_be_u32(b, 8);
    if body_len > MAX_VIDEO_BODY {
        Err(WireError::OversizeBody)
    } else {
        Ok(PacketHeader { pts_flags, body_len })
    }
}

/// The handshake line announced to the peer on connect.
pub open spec fn handshake_bytes(bitrate: nat, max_size: nat) -> Seq<u8> {
    "bitrate=".spec_bytes() + dec_digits(bitrate) + "&max_size=".spec_bytes() + dec_digits(
        max_size,
    ) + "\n".spec_bytes()
}

/// Encode the handshake line `bitrate=<b>&max_size=<m>\n`.
pub fn encode_handshake(bitrate: u32, max_size: u32) -> (r: Vec<u8>)
    ensures
        r@ == handshake_bytes(bitrate as nat, max_size as nat),
{
    let mut v: Vec<u8> = Vec::new();
    v.extend_from_slice("bitrate=".as_bytes());
    let b = u32_to_dec(bitrate);
    v.extend_from_slice(b.as_slice());
    v.extend_from_slice("&max_size=".as_bytes());
    let m = u32_to_dec(max_size);
    v.extend_from_slice(m.as_slice());
    v.extend_from_slice("\n".as_bytes());
    proof {
        assert(v@ =~= handshake_bytes(bitrate as nat, max_size as nat));
    }
    v
}

/// The backoff that follows a failed cycle: doubled, capped at ten
/// seconds.
pub open spec fn doubled_backoff(delay_s: u64) -> u64 {
    if 2 * delay_s < MAX_BACKOFF_S {
        (2 * delay_s) as u64
    } else {
        MAX_BACKOFF_S
    }
}

/// The backoff delay that follows `delay_s`: doubled, capped at ten seconds.
pub fn next_backoff(delay_s: u64) -> (r: u64)
    requires
        1 <= delay_s <= MAX_BACKOFF_S,
    ensures
        r == doubled_backoff(delay_s),
        1 <= r <= MAX_BACKOFF_S,
{
    let doubled = delay_s * 2;
    if doubled < MAX_BACKOFF_S {
        doubled
    } else {
        MAX_BACKOFF_S
    }
}

/// The control-connect backoff that follows `delay_ms`: doubled, capped at
/// five seconds.
pub fn next_connect_backoff_ms(delay_ms: u64) -> (r: u64)
    requires
        1 <= delay_ms <= 5000,
    ensures
        r == if 2 * delay_ms < 5000 {
            2 * delay_ms
        } else {
            5000int
        },
        1 <= r <= 5000,
{
    let doubled = delay_ms * 2;
    if doubled < 5000 {
        doubled
    } else {
        5000
    }
}

/// Where the video receiver stands between two socket operations.
#[derive(Clone, Copy, PartialEq, Eq, Structural, Debug)]
pub enum ReceiverState {
    /// Not connected; `delay_s` is the backoff to apply on the next failure.
    Idle { delay_s: u64 },
    /// Connected, about to read a packet header.
    AwaitHeader { delay_s: u64, timeouts: u32 },
    /// Header read; the body of `body_len` bytes is outstanding.
    AwaitBody { delay_s: u64, body_len: u32 },
    /// A body has been read and must be offered to the decoder queue.
    Deliver { delay_s: u64 },
    /// The receiver is shut down.
    Stopped,
}

impl ReceiverState {
    /// States carry a backoff delay within the legal range.
    pub open spec fn inv(self) -> bool {
        match self {
            ReceiverState::Idle { delay_s } => 1 <= delay_s <= MAX_BACKOFF_S,
            ReceiverState::AwaitHeader { delay_s, timeouts } => 1 <= delay_s <= MAX_BACKOFF_S
                && timeouts <= MAX_CONSECUTIVE_TIMEOUTS,
            ReceiverState::AwaitBody { delay_s, body_len } => 1 <= delay_s <= MAX_BACKOFF_S
                && body_len <= MAX_VIDEO_BODY,
            ReceiverState::Deliver { delay_s } => 1 <= delay_s <= MAX_BACKOFF_S,
            ReceiverState::Stopped => true,
        }
    }

    /// The receiver starts disconnected with a one-second backoff.
    pub fn initial() -> (r: Self)
        ensures
            r == (ReceiverState::Idle { delay_s: 1u64 }),
            r.inv(),
    {
        ReceiverState::Idle { delay_s: 1 }
    }
}

/// What happened on the socket or the queue.
pub enum ReceiverEvent {
    /// The TCP connect succeeded.
    Connected,
    /// The TCP connect failed.
    ConnectFailed,
    /// Twelve header bytes were read.
    HeaderRead(Vec<u8>),
    /// The outstanding body was read in full.
    BodyRead,
    /// A read hit its timeout with no data.
    TimedOut,
    /// A read failed or the peer closed the connection.
    IoError,
    /// The decoder queue accepted the body.
    QueueAccepted,
    /// The decoder queue was full; the body is dropped.
    QueueFull,
    /// The decoder queue is gone; the receiver must exit.
    QueueClosed,
    /// The owner asked the receiver to stop.
    StopRequested,
}

/// What the socket loop must do next.
#[derive(PartialEq, Eq, Structural, Clone, Debug)]
pub enum ReceiverAction {
    /// Send the handshake line, then read the next header.
    SendHandshake,
    /// Read the next 12-byte header.
    ReadHeader,
    /// Read exactly this many body bytes.
    ReadBody(u32),
    /// Offer the body just read to the decoder queue.
    OfferBody,
    /// Drop the connection, sleep this many seconds, then reconnect.
    AbortAndSleep(u64),
    /// Sleep this many seconds, then try to connect again.
    Sleep(u64),
    /// Exit the receiver loop.
    Exit,
}

/// Advance the receiver by one event.
///
/// The decisions follow the reconnect policy: backoff doubles up to ten
/// seconds after every failed cycle and resets to one second on a
/// successful connection; an oversize body or a read error abandons the
/// connection; so does the eleventh consecutive timeout; a full queue only
/// drops the packet, a closed queue ends the receiver.
pub fn receiver_step(state: ReceiverState, event: ReceiverEvent) -> (r: (
    ReceiverState,
    ReceiverAction,
))
    requires
        state.inv(),
        event matches ReceiverEvent::HeaderRead(h) ==> h@.len() == 12,
    ensures
        r.0.inv(),
        // Stopping wins over everything else.
        event is StopRequested ==> r.0 is Stopped && r.1 == ReceiverAction::Exit,
        // A successful connection resets the backoff to one second.
        state is Idle && event is Connected ==> r.0 == (ReceiverState::AwaitHeader {
            delay_s: 1u64,
            timeouts: 0u32,
        }) && r.1 == ReceiverAction::SendHandshake,
        // A failed connection sleeps the current backoff, then doubles it.
        state matches ReceiverState::Idle { delay_s } ==> (event is ConnectFailed ==> r.0 == (
        ReceiverState::Idle { delay_s: doubled_backoff(delay_s) }) && r.1
            == ReceiverAction::Sleep(delay_s)),
        // A header within bounds asks for exactly its body; an oversize
        // header is a desync and drops the connection.
        state matches ReceiverState::AwaitHeader { delay_s, timeouts } ==> (event matches
            ReceiverEvent::HeaderRead(h) ==> if be_u32(h@[8], h@[9], h@[10], h@[11])
            <= MAX_VIDEO_BODY {
            r.0 == (ReceiverState::AwaitBody {
                delay_s,
                body_len: be_u32(h@[8], h@[9], h@[10], h@[11]) as u32,
            }) && r.1 == ReceiverAction::ReadBody(be_u32(h@[8], h@[9], h@[10], h@[11]) as u32)
        } else {
            r.1 == ReceiverAction::AbortAndSleep(delay_s) && r.0 == (ReceiverState::Idle {
                delay_s: doubled_backoff(delay_s),
            })
        }),
        // Timeouts are tolerated up to the limit, then abandon the connection.
        state matches ReceiverState::AwaitHeader { delay_s, timeouts } ==> (event is TimedOut
            ==> if timeouts < MAX_CONSECUTIVE_TIMEOUTS {
            r.0 == (ReceiverState::AwaitHeader { delay_s, timeouts: (timeouts + 1) as u32 }) && r.1
                == ReceiverAction::ReadHeader
        } else {
            r.1 == ReceiverAction::AbortAndSleep(delay_s) && r.0 == (ReceiverState::Idle {
                delay_s: doubled_backoff(delay_s),
            })
        }),
        // Read errors abandon the connection.
        state matches ReceiverState::AwaitHeader { delay_s, timeouts } ==> (event is IoError
            ==> r.1 == ReceiverAction::AbortAndSleep(delay_s) && r.0 == (ReceiverState::Idle {
            delay_s: doubled_backoff(delay_s),
        })),
        state matches ReceiverState::AwaitBody { delay_s, body_len } ==> ((event is IoError
            || event is TimedOut) ==> r.1 == ReceiverAction::AbortAndSleep(delay_s) && r.0 == (
        ReceiverState::Idle { delay_s: doubled_backoff(delay_s) })),
        // A complete body is offered to the decoder queue.
        state matches ReceiverState::AwaitBody { delay_s, body_len } ==> (event is BodyRead
            ==> r.0 == (ReceiverState::Deliver { delay_s }) && r.1 == ReceiverAction::OfferBody),
        // Accepted or dropped, the loop goes on to the next header; the
        // backoff it carries is unchanged.
        state matches ReceiverState::Deliver { delay_s } ==> ((event is QueueAccepted || event
            is QueueFull) ==> r.0 == (ReceiverState::AwaitHeader { delay_s, timeouts: 0u32 })
            && r.1 == ReceiverAction::ReadHeader),
        // A closed queue ends the receiver.
        state is Deliver ==> (event is QueueClosed ==> r.0 is Stopped && r.1
            == ReceiverAction::Exit),
{
    match event {
        ReceiverEvent::StopRequested => (ReceiverState::Stopped, ReceiverAction::Exit),
        ReceiverEvent::Connected => (
            ReceiverState::AwaitHeader { delay_s: 1, timeouts: 0 },
            ReceiverAction::SendHandshake,
        ),
        ReceiverEvent::ConnectFailed => {
            match state {
                ReceiverState::Idle { delay_s } => (
                    ReceiverState::Idle { delay_s: next_backoff(delay_s) },
                    ReceiverAction::Sleep(delay_s),
                ),
                _ => (ReceiverState::Stopped, ReceiverAction::Exit),
            }
        },
        ReceiverEvent::HeaderRead(h) => {
            match state {
                ReceiverState::AwaitHeader { delay_s, .. } => {
                    match parse_video_header(h.as_slice()) {
                        Ok(header) => (
                            ReceiverState::AwaitBody { delay_s, body_len: header.body_len },
                            ReceiverAction::ReadBody(header.body_len),
                        ),
                        Err(_) => (
                            ReceiverState::Idle { delay_s: next_backoff(delay_s) },
                            ReceiverAction::AbortAndSleep(delay_s),
                        ),
                    }
                },
                _ => (ReceiverState::Stopped, ReceiverAction::Exit),
            }
        },
        ReceiverEvent::TimedOut => {
            match state {
                ReceiverState::AwaitHeader { delay_s, timeouts } => {
                    if timeouts < MAX_CONSECUTIVE_TIMEOUTS {
                        (
                            ReceiverState::AwaitHeader { delay_s, timeouts: timeouts + 1 },
                            ReceiverAction::ReadHeader,
                        )
                    } else {
                        (
                            ReceiverState::Idle { delay_s: next_backoff(delay_s) },
                            ReceiverAction::AbortAndSleep(delay_s),
                        )
                    }
                },
                ReceiverState::AwaitBody { delay_s, .. } => (
                    ReceiverState::Idle { delay_s: next_backoff(delay_s) },
                    ReceiverAction::AbortAndSleep(delay_s),
                ),
                _ => (ReceiverState::Stopped, ReceiverAction::Exit),
            }
        },
        ReceiverEvent::IoError => {
            match state {
                ReceiverState::AwaitHeader { delay_s, .. } => (
                    ReceiverState::Idle { delay_s: next_backoff(delay_s) },
                    ReceiverAction::AbortAndSleep(delay_s),
                ),
                ReceiverState::AwaitBody { delay_s, .. } => (
                    ReceiverState::Idle { delay_s: next_backoff(delay_s) },
                    ReceiverAction::AbortAndSleep(delay_s),
                ),
                _ => (ReceiverState::Stopped, ReceiverAction::Exit),
            }
        },
        ReceiverEvent::BodyRead => {
            match state {
                ReceiverState::AwaitBody { delay_s, .. } => (
                    ReceiverState::Deliver { delay_s },
                    ReceiverAction::OfferBody,
                ),
                _ => (ReceiverState::Stopped, ReceiverAction::Exit),
            }
        },
        ReceiverEvent::QueueAccepted => {
            match state {
                ReceiverState::Deliver { delay_s } => (
                    ReceiverState::AwaitHeader { delay_s, timeouts: 0 },
                    ReceiverAction::ReadHeader,
                ),
                _ => (ReceiverState::Stopped, ReceiverAction::Exit),
            }
        },
        ReceiverEvent::QueueFull => {
            match state {
                ReceiverState::Deliver { delay_s } => (
                    ReceiverState::AwaitHeader { delay_s, timeouts: 0 },
                    ReceiverAction::ReadHeader,
                ),
                _ => (ReceiverState::Stopped, ReceiverAction::Exit),
            }
        },
        ReceiverEvent::QueueClosed => (ReceiverState::Stopped, ReceiverAction::Exit),
    }
}

} // verus!
