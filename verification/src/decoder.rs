//! H.264 decoding: NAL assembly, keyframe-wait recovery, watchdog, and
//! plane packing around the OpenH264 decoder.
//!
//! Each input chunk is appended to the splitter and every complete NAL
//! unit is handed to the decoder. A hard decode error on a sampling
//! boundary, a buffer overflow, or two seconds without an output frame
//! while input flows resets the decoder; after a reset, NAL units are
//! dropped until a keyframe boundary (IDR, SPS or PPS) arrives. Decoded
//! pictures are copied out of their stride-padded planes into tightly
//! packed buffers.

use vstd::prelude::*;

use crate::nal::{spec_is_keyframe, split_all, is_keyframe, NalSplitter};
use openh264::formats::YUVSource;

verus! {

/// Decoder input buffered beyond this size triggers overflow recovery.
pub const MAX_BUFFER_SIZE: usize = 4194304;

/// How much of an overflowing buffer is retained.
pub const OVERFLOW_KEEP: usize = 262144;

/// Stall time, in milliseconds, after which the watchdog resets the
/// decoder.
pub const WATCHDOG_STALL_MS: u64 = 2000;

/// Every how many packets a decode error escalates to a reset.
pub const ERROR_RESET_SAMPLE: u64 = 50;

/// A failure to bring up the underlying decoder.
#[derive(PartialEq, Eq, Structural, Clone, Copy, Debug)]
pub enum VideoError {
    InitFailed,
}

/// A decoded picture exactly as the decoder lends it out: plane buffers
/// that may carry stride padding.
pub struct RawYuv {
    pub width: usize,
    pub height: usize,
    pub y: Vec<u8>,
    pub u: Vec<u8>,
    pub v: Vec<u8>,
    pub y_stride: usize,
    pub uv_stride: usize,
}

/// A decoded frame with tightly packed planes: the Y plane at full
/// resolution, the U and V planes at half resolution in each dimension.
pub struct YuvFrame {
    pub width: u32,
    pub height: u32,
    pub y_plane: Vec<u8>,
    pub u_plane: Vec<u8>,
    pub v_plane: Vec<u8>,
    pub y_stride: usize,
    pub uv_stride: usize,
}

impl YuvFrame {
    /// Packed I420 layout: strides equal the plane widths and every plane
    /// holds exactly its pixels.
    pub open spec fn well_formed(self) -> bool {
        &&& self.y_stride == self.width as int
        &&& self.uv_stride == self.width as int / 2
        &&& self.y_plane@.len() == self.width * self.height
        &&& self.u_plane@.len() == (self.width as int / 2) * (self.height as int / 2)
        &&& self.v_plane@.len() == (self.width as int / 2) * (self.height as int / 2)
    }
}

#[verifier::external_type_specification]
#[verifier::external_body]
pub struct ExDecoder(openh264::decoder::Decoder);

#[verifier::external_type_specification]
#[verifier::external_body]
pub struct ExOpenH264Error(openh264::Error);

/// Relies on openh264::decoder::Decoder::new to build a decoder with the
/// built-in OpenH264; nothing is assumed about the outcome.
#[verifier::external_body]
fn decoder_new() -> (r: Result<openh264::decoder::Decoder, openh264::Error>) {
    openh264::decoder::Decoder::new()
}

/// Relies on openh264::decoder::Decoder::decode, which consumes one NAL
/// unit and may lend out a decoded picture. The wrapper copies the
/// picture's planes, dimensions and strides into plain values; nothing is
/// assumed about them, so the caller checks every bound at run time.
#[verifier::external_body]
fn decoder_decode(dec: &mut openh264::decoder::Decoder, data: &[u8]) -> (r: Result<
    Option<RawYuv>,
    openh264::Error,
>) {
    dec.decode(data).map(|opt| opt.map(|yuv| {
        let (width, height) = yuv.dimensions();
        let (y_stride, uv_stride, _) = yuv.strides();
        let (y, u, v) = (yuv.y().to_vec(), yuv.u().to_vec(), yuv.v().to_vec());
        RawYuv { width, height, y, u, v, y_stride, uv_stride }
    }))
}

/// Row `row` of the packed plane `p` equals the content part of the same
/// row of the stride-padded plane `d`.
pub open spec fn packed_row(p: Seq<u8>, d: Seq<u8>, stride: int, w: int, row: int) -> bool {
    p.subrange(row * w, row * w + w) == d.subrange(row * stride, row * stride + w)
}

/// Copy a `w` by `h` region out of a stride-padded plane into a packed
/// buffer, or refuse when the plane is too small for that region.
pub fn pack_plane(data: &Vec<u8>, stride: usize, w: usize, h: usize) -> (r: Option<Vec<u8>>)
    ensures
        r is Some <==> w * h <= usize::MAX && (h == 0 || (h - 1) * stride + w <= data@.len()),
        r matches Some(p) ==> {
            &&& p@.len() == w * h
            &&& forall|row: int|
                0 <= row < h ==> #[trigger] packed_row(p@, data@, stride as int, w as int, row)
        },
{
    let dlen = data.len();
    match w.checked_mul(h) {
        None => {
            return None;
        },
        Some(_) => {},
    }
    if h > 0 {
        match (h - 1).checked_mul(stride) {
            None => {
                return None;
            },
            Some(base) => {
                match base.checked_add(w) {
                    None => {
                        return None;
                    },
                    Some(end) => {
                        if end > data.len() {
                            return None;
                        }
                    },
                }
            },
        }
    }
    let mut p: Vec<u8> = Vec::new();
    let mut row: usize = 0;
    while row < h
        invariant
            0 <= row <= h,
            w * h <= usize::MAX,
            dlen == data@.len(),
            h == 0 || (h - 1) * stride + w <= data@.len(),
            p@.len() == row * w,
            forall|r0: int|
                0 <= r0 < row ==> #[trigger] packed_row(p@, data@, stride as int, w as int, r0),
        decreases h - row,
    {
        proof {
            assert(row * stride + w <= (h - 1) * stride + w) by (nonlinear_arith)
                requires
                    0 <= row < h && stride >= 0,
            ;
            assert(row * w + w <= h * w && h * w == w * h) by (nonlinear_arith)
                requires
                    0 <= row < h && w >= 0,
            ;
        }
        let ghost p_before = p@;
        let row_slice = crate::bytes::vec_subrange(data, row * stride, row * stride + w);
        p.extend_from_slice(row_slice.as_slice());
        proof {
            assert forall|r0: int|
                0 <= r0 < row implies #[trigger] packed_row(
                p@,
                data@,
                stride as int,
                w as int,
                r0,
            ) by {
                assert(packed_row(p_before, data@, stride as int, w as int, r0));
                assert(r0 * w + w <= row * w) by (nonlinear_arith)
                    requires
                        0 <= r0 < row && w >= 0,
                ;
                assert(r0 * w >= 0) by (nonlinear_arith)
                    requires
                        r0 >= 0 && w >= 0,
                ;
                assert(p@.subrange(r0 * w, r0 * w + w) =~= p_before.subrange(r0 * w, r0 * w + w));
            }
            assert(p@.subrange(row * w, row * w + w) =~= row_slice@);
            assert(packed_row(p@, data@, stride as int, w as int, row as int));
        }
        row = row + 1;
        proof {
            assert(p@.len() == row * w) by (nonlinear_arith)
                requires
                    p@.len() == (row - 1) * w + w,
            ;
            assert forall|r0: int|
                0 <= r0 < row implies #[trigger] packed_row(
                p@,
                data@,
                stride as int,
                w as int,
                r0,
            ) by {
            }
        }
    }
    proof {
        assert(p@.len() == w * h) by (nonlinear_arith)
            requires
                p@.len() == h * w,
        ;
    }
    Some(p)
}

/// Pack a raw decoded picture into a `YuvFrame`: accepted exactly when
/// the dimensions are positive and representable and every plane covers
/// its stated region, whose content is then copied row by row.
fn pack_raw(raw: &RawYuv) -> (r: Option<YuvFrame>)
    ensures
        r is Some <==> {
            &&& 0 < raw.width <= u32::MAX
            &&& 0 < raw.height <= u32::MAX
            &&& raw.width * raw.height <= usize::MAX
            &&& (raw.height - 1) * raw.y_stride + raw.width <= raw.y@.len()
            &&& (raw.height / 2 == 0 || (raw.height / 2 - 1) * raw.uv_stride + raw.width / 2
                <= raw.u@.len())
            &&& (raw.height / 2 == 0 || (raw.height / 2 - 1) * raw.uv_stride + raw.width / 2
                <= raw.v@.len())
        },
        r matches Some(f) ==> {
            &&& f.well_formed()
            &&& f.width == raw.width
            &&& f.height == raw.height
            &&& forall|row: int|
                0 <= row < raw.height ==> #[trigger] packed_row(
                    f.y_plane@,
                    raw.y@,
                    raw.y_stride as int,
                    raw.width as int,
                    row,
                )
            &&& forall|row: int|
                0 <= row < raw.height / 2 ==> #[trigger] packed_row(
                    f.u_plane@,
                    raw.u@,
                    raw.uv_stride as int,
                    raw.width as int / 2,
                    row,
                )
            &&& forall|row: int|
                0 <= row < raw.height / 2 ==> #[trigger] packed_row(
                    f.v_plane@,
                    raw.v@,
                    raw.uv_stride as int,
                    raw.width as int / 2,
                    row,
                )
        },
{
    if raw.width == 0 || raw.height == 0 || raw.width > 0xFFFF_FFFFusize || raw.height
        > 0xFFFF_FFFFusize {
        return None;
    }
    let w = raw.width;
    let h = raw.height;
    let uv_w = w / 2;
    let uv_h = h / 2;
    proof {
        assert(uv_w * uv_h <= w * h) by (nonlinear_arith)
            requires
                0 <= uv_w <= w && 0 <= uv_h <= h,
        ;
    }
    let y_packed = match pack_plane(&raw.y, raw.y_stride, w, h) {
        Some(p) => p,
        None => {
            return None;
        },
    };
    let u_packed = match pack_plane(&raw.u, raw.uv_stride, uv_w, uv_h) {
        Some(p) => p,
        None => {
            return None;
        },
    };
    let v_packed = match pack_plane(&raw.v, raw.uv_stride, uv_w, uv_h) {
        Some(p) => p,
        None => {
            return None;
        },
    };
    Some(
        YuvFrame {
            width: w as u32,
            height: h as u32,
            y_plane: y_packed,
            u_plane: u_packed,
            v_plane: v_packed,
            y_stride: w,
            uv_stride: uv_w,
        },
    )
}

/// The H.264 decoder with its recovery state.
pub struct VideoDecoder {
    decoder: openh264::decoder::Decoder,
    splitter: NalSplitter,
    packet_count: u64,
    frame_count: u64,
    last_frame_ms: u64,
    last_reset_ms: u64,
    waiting_for_keyframe: bool,
}

/// The watchdog fires: the caller's clock stands more than the stall
/// threshold past the last output frame or recovery.
pub open spec fn watchdog_fires(d: VideoDecoder, now_ms: u64) -> bool {
    now_ms > d.last_ms() && now_ms - d.last_ms() > WATCHDOG_STALL_MS
}

/// Overflow recovery fires: the buffer joined with the chunk passes the
/// size limit.
pub open spec fn overflow_fires(d: VideoDecoder, chunk_len: nat) -> bool {
    d.buffered().len() + chunk_len > MAX_BUFFER_SIZE
}

impl VideoDecoder {
    /// The bytes buffered towards the next complete NAL unit.
    pub closed spec fn buffered(self) -> Seq<u8> {
        self.splitter.buf()
    }

    /// Whether the decoder is discarding input until a keyframe boundary.
    pub closed spec fn waiting(self) -> bool {
        self.waiting_for_keyframe
    }

    /// The time, in caller-supplied milliseconds, of the last output frame
    /// or recovery.
    pub closed spec fn last_ms(self) -> u64 {
        self.last_frame_ms
    }

    /// NAL units fed so far.
    pub closed spec fn packets(self) -> u64 {
        self.packet_count
    }

    /// Frames produced so far.
    pub closed spec fn frames(self) -> u64 {
        self.frame_count
    }

    /// The time, in caller-supplied milliseconds, of the most recent
    /// decoder reset.
    pub closed spec fn reset_ms(self) -> u64 {
        self.last_reset_ms
    }

    /// Number of bytes buffered towards the next complete NAL unit.
    pub fn buffered_bytes(&self) -> (r: usize)
        ensures
            r == self.buffered().len(),
    {
        self.splitter.buffered_len()
    }

    /// Build a decoder. `now_ms` seeds the watchdog clock; the caller
    /// passes a monotonic millisecond reading on every call.
    pub fn new(now_ms: u64) -> (r: Result<VideoDecoder, VideoError>)
        ensures
            r matches Ok(d) ==> {
                &&& !d.waiting()
                &&& d.buffered() == Seq::<u8>::empty()
                &&& d.last_ms() == now_ms
                &&& d.reset_ms() == now_ms
                &&& d.packets() == 0
                &&& d.frames() == 0
            },
    {
        match decoder_new() {
            Ok(decoder) => Ok(
                VideoDecoder {
                    decoder,
                    splitter: NalSplitter::new(),
                    packet_count: 0,
                    frame_count: 0,
                    last_frame_ms: now_ms,
                    last_reset_ms: now_ms,
                    waiting_for_keyframe: false,
                },
            ),
            Err(_) => Err(VideoError::InitFailed),
        }
    }

    /// Recreate the underlying decoder, wait for a keyframe, and record
    /// the reset time. The keyframe wait begins even when the recreation
    /// fails, as a failed decoder cannot be trusted with mid-stream input
    /// either.
    fn reset_decoder(&mut self, now_ms: u64)
        ensures
            final(self).waiting(),
            final(self).reset_ms() == now_ms,
            final(self).buffered() == old(self).buffered(),
            final(self).last_ms() == old(self).last_ms(),
            final(self).packets() == old(self).packets(),
            final(self).frames() == old(self).frames(),
    {
        match decoder_new() {
            Ok(d) => {
                self.decoder = d;
            },
            Err(_) => {},
        }
        self.waiting_for_keyframe = true;
        self.last_reset_ms = now_ms;
    }

    /// Feed one NAL unit to the decoder; a decoded picture, if one comes
    /// out whole, is packed and appended to `frames`. At most one frame
    /// is appended per unit, and a failed decode appends none.
    fn feed_nal(&mut self, nal: &Vec<u8>, frames: &mut Vec<YuvFrame>) -> (ok: bool)
        ensures
            final(self).waiting() == old(self).waiting(),
            final(self).buffered() == old(self).buffered(),
            final(self).last_ms() == old(self).last_ms(),
            final(self).reset_ms() == old(self).reset_ms(),
            final(self).packets() == old(self).packets(),
            old(frames)@.len() <= final(frames)@.len() <= old(frames)@.len() + 1,
            !ok ==> final(frames)@ == old(frames)@,
            forall|i: int|
                0 <= i < old(frames)@.len() ==> final(frames)@[i] == old(frames)@[i],
            forall|i: int|
                old(frames)@.len() <= i < final(frames)@.len() ==> (#[trigger] final(frames)@[i]).well_formed(),
    {
        match decoder_decode(&mut self.decoder, nal.as_slice()) {
            Ok(Some(raw)) => {
                match pack_raw(&raw) {
                    Some(frame) => {
                        self.frame_count = self.frame_count.saturating_add(1);
                        frames.push(frame);
                    },
                    None => {},
                }
                true
            },
            Ok(None) => true,
            Err(_) => false,
        }
    }

    /// Decode a chunk of the video elementary stream.
    ///
    /// The chunk joins the buffer; every complete NAL unit is fed in
    /// stream order, and each unit yields at most one frame. Watchdog:
    /// two seconds without an output frame resets the decoder and defers
    /// the buffered input to the keyframe wait of the following calls.
    /// Overflow: a buffer past four mebibytes resets the decoder and
    /// keeps only the final 256 kibibytes. Keyframe resync: while the
    /// decoder waits for a keyframe, NAL units are dropped until one of
    /// type IDR, SPS or PPS arrives — no frame is emitted before it, and
    /// its arrival ends the wait unless a decode-error reset within the
    /// same call re-arms it.
    pub fn decode(&mut self, data: &[u8], now_ms: u64) -> (frames: Vec<YuvFrame>)
        requires
            old(self).buffered().len() + data@.len() <= usize::MAX,
        ensures
            // Every frame handed out is packed I420.
            forall|i: int|
                0 <= i < frames@.len() ==> (#[trigger] frames@[i]).well_formed(),
            // At most one frame per complete NAL unit; in particular,
            // input that completes no unit yields no frame.
            frames@.len() <= split_all(old(self).buffered() + data@).0.len(),
            // Watchdog: a stall beyond the threshold forces a reset before
            // anything is decoded.
            watchdog_fires(*old(self), now_ms) ==> {
                &&& frames@.len() == 0
                &&& final(self).waiting()
                &&& final(self).last_ms() == now_ms
                &&& final(self).reset_ms() == now_ms
                &&& final(self).buffered() == old(self).buffered() + data@
            },
            // Overflow recovery: a buffer past the limit forces a reset
            // and keeps only the newest bytes.
            !watchdog_fires(*old(self), now_ms) && overflow_fires(*old(self), data@.len()) ==> {
                &&& frames@.len() == 0
                &&& final(self).waiting()
                &&& final(self).last_ms() == now_ms
                &&& final(self).reset_ms() == now_ms
                &&& final(self).buffered() == (old(self).buffered() + data@).skip(
                    old(self).buffered().len() + data@.len() - OVERFLOW_KEEP,
                )
            },
            // Keyframe resync, first half: while waiting, nothing is
            // emitted until a keyframe boundary is among the units.
            old(self).waiting() && (forall|i: int|
                0 <= i < split_all(old(self).buffered() + data@).0.len()
                    ==> !spec_is_keyframe(#[trigger] split_all(old(self).buffered() + data@).0[i]))
                ==> frames@.len() == 0 && final(self).waiting(),
            // Keyframe resync, second half: a keyframe boundary among the
            // units ends the wait, unless a decode-error reset within
            // this very call re-armed it.
            (old(self).waiting() && !watchdog_fires(*old(self), now_ms) && !overflow_fires(
                *old(self),
                data@.len(),
            ) && (exists|i: int|
                0 <= i < split_all(old(self).buffered() + data@).0.len() && spec_is_keyframe(
                    #[trigger] split_all(old(self).buffered() + data@).0[i],
                ))) ==> (!final(self).waiting() || final(self).reset_ms() == now_ms),
            // Outside watchdog and overflow recovery, the buffer advances
            // exactly as the splitter leaves it.
            !watchdog_fires(*old(self), now_ms) && !overflow_fires(*old(self), data@.len())
                ==> final(self).buffered() == split_all(old(self).buffered() + data@).1,
            // A produced frame brings the watchdog clock forward.
            frames@.len() > 0 ==> final(self).last_ms() == now_ms,
    {
        self.splitter.append(data);
        let mut frames: Vec<YuvFrame> = Vec::new();

        // Watchdog: no output for too long while input is flowing.
        let stall = now_ms.saturating_sub(self.last_frame_ms);
        if stall > WATCHDOG_STALL_MS {
            self.reset_decoder(now_ms);
            self.last_frame_ms = now_ms;
            return frames;
        }
        // Overflow recovery: drop all but the tail and wait for a keyframe.
        if self.splitter.buffered_len() > MAX_BUFFER_SIZE {
            self.reset_decoder(now_ms);
            self.splitter.keep_tail(OVERFLOW_KEEP);
            self.last_frame_ms = now_ms;
            return frames;
        }
        let nals = self.splitter.drain();
        let ghost nals_view = split_all(old(self).buffered() + data@).0;
        let mut idx: usize = 0;
        while idx < nals.len()
            invariant
                nals@.map_values(|v: Vec<u8>| v@) == nals_view,
                0 <= idx <= nals@.len(),
                frames@.len() <= idx,
                self.buffered() == split_all(old(self).buffered() + data@).1,
                forall|i: int|
                    0 <= i < frames@.len() ==> (#[trigger] frames@[i]).well_formed(),
                old(self).waiting() ==> (exists|j: int|
                    0 <= j < idx && spec_is_keyframe(#[trigger] nals_view[j])) || (self.waiting()
                    && frames@.len() == 0),
                old(self).waiting() ==> ((exists|j: int|
                    0 <= j < idx && spec_is_keyframe(#[trigger] nals_view[j])) ==> (!self.waiting()
                    || self.reset_ms() == now_ms)),
            decreases nals@.len() - idx,
        {
            let nal = &nals[idx];
            proof {
                assert(nals_view[idx as int] == nals@[idx as int]@);
            }
            self.packet_count = self.packet_count.saturating_add(1);
            let mut skip = false;
            if self.waiting_for_keyframe {
                if is_keyframe(nal.as_slice()) {
                    self.waiting_for_keyframe = false;
                } else {
                    skip = true;
                }
            }
            if !skip {
                let ok = self.feed_nal(nal, &mut frames);
                if !ok {
                    // A hard decode error: on the sampling boundary the
                    // decoder is reset and the keyframe wait filters the
                    // remaining units; otherwise carry on.
                    if self.packet_count % ERROR_RESET_SAMPLE == 0 {
                        self.reset_decoder(now_ms);
                        self.last_frame_ms = now_ms;
                    }
                }
            }
            idx = idx + 1;
        }
        if frames.len() > 0 {
            self.last_frame_ms = now_ms;
        }
        frames
    }
}

} // verus!
