//! Audio stream parsing, PCM sample decoding, and the playback queue.
//!
//! The audio connection opens with a 12-byte header — the magic `AUDIO\0`,
//! a big-endian sample rate, a channel count and a codec id — and then
//! carries packets of an 8-byte big-endian PTS, a 4-byte big-endian size
//! and that many payload bytes. The payload is little-endian signed 16-bit
//! PCM; playback turns each sample into a float by dividing by 32768, which
//! is the one step that stays outside the library.

use vstd::prelude::*;

use crate::bytes::{be_u32, be_u64, read_be_u32, read_be_u64, vec_subrange};

verus! {

/// Audio packet payloads above this size are rejected as desync.
pub const MAX_AUDIO_BODY: u32 = 1048576;

/// The per-connection audio stream header.
#[derive(Debug)]
pub struct AudioHeader {
    pub sample_rate: u32,
    pub channels: u8,
    /// Codec id announced by the peer (1 = OPUS); the host plays the
    /// payload as raw PCM regardless.
    pub codec_type: u8,
}

/// One audio packet: presentation timestamp and raw payload bytes.
#[derive(Clone)]
pub struct AudioPacket {
    pub pts: u64,
    pub data: Vec<u8>,
}

/// A violation of the audio framing.
#[derive(PartialEq, Eq, Structural, Clone, Copy, Debug)]
pub enum AudioError {
    BadMagic,
    OversizeBody,
}

/// The six magic bytes `AUDIO\0` open every audio connection.
pub open spec fn audio_magic_ok(b: Seq<u8>) -> bool {
    b[0] == 65u8 && b[1] == 85u8 && b[2] == 68u8 && b[3] == 73u8 && b[4] == 79u8 && b[5] == 0u8
}

/// Parse the 12-byte audio stream header.
pub fn parse_audio_header(b: &[u8]) -> (r: Result<AudioHeader, AudioError>)
    requires
        b@.len() == 12,
    ensures
        match r {
            Ok(h) => {
                &&& audio_magic_ok(b@)
                &&& h.sample_rate == be_u32(b@[6], b@[7], b@[8], b@[9])
                &&& h.channels == b@[10]
                &&& h.codec_type == b@[11]
            },
            Err(e) => e == AudioError::BadMagic && !audio_magic_ok(b@),
        },
{
    if b[0] != 65 || b[1] != 85 || b[2] != 68 || b[3] != 73 || b[4] != 79 || b[5] != 0 {
        return Err(AudioError::BadMagic);
    }
    let sample_rate = read_be_u32(b, 6);
    Ok(AudioHeader { sample_rate, channels: b[10], codec_type: b[11] })
}

/// Parse the 12-byte audio packet header: PTS and payload size. Sizes
/// above `MAX_AUDIO_BODY` fail the connection.
pub fn parse_audio_packet_header(b: &[u8]) -> (r: Result<(u64, u32), AudioError>)
    requires
        b@.len() == 12,
    ensures
        match r {
            Ok(p) => {
                &&& p.0 == be_u64(b@.subrange(0, 8))
                &&& p.1 == be_u32(b@[8], b@[9], b@[10], b@[11])
                &&& p.1 <= MAX_AUDIO_BODY
            },
            Err(e) => {
                &&& e == AudioError::OversizeBody
                &&& be_u32(b@[8], b@[9], b@[10], b@[11]) > MAX_AUDIO_BODY
            },
        },
{
    let pts = read_be_u64(b, 0);
    let size = read_be_u32(b, 8);
    if size > MAX_AUDIO_BODY {
        Err(AudioError::OversizeBody)
    } else {
        Ok((pts, size))
    }
}

/// The signed 16-bit sample encoded little-endian by two bytes.
pub open spec fn pcm_sample(lo: u8, hi: u8) -> int {
    if lo + 256 * hi >= 32768 {
        lo + 256 * hi - 65536
    } else {
        lo + 256 * hi
    }
}

/// The samples of a PCM payload: consecutive little-endian byte pairs; a
/// trailing odd byte is ignored.
pub open spec fn pcm_samples(data: Seq<u8>) -> Seq<int> {
    Seq::new(data.len() / 2, |i: int| pcm_sample(data[2 * i], data[2 * i + 1]))
}

/// Decode a PCM payload into its 16-bit samples.
///
/// Playback divides each sample by 32768 to get the float in [-1, 1); a
/// zero sample maps to zero, so underrun padding stays silent.
pub fn decode_pcm_samples(data: &[u8]) -> (r: Vec<i16>)
    ensures
        r@.len() == data@.len() / 2,
        forall|i: int| 0 <= i < r@.len() ==> r@[i] == pcm_samples(data@)[i],
{
    let mut out: Vec<i16> = Vec::new();
    let dlen = data.len();
    let n = dlen / 2;
    let mut i: usize = 0;
    while i < n
        invariant
            dlen == data@.len(),
            n == data@.len() / 2,
            0 <= i <= n,
            out@.len() == i,
            forall|k: int| 0 <= k < i ==> out@[k] == pcm_samples(data@)[k],
        decreases n - i,
    {
        let lo = data[2 * i];
        let hi = data[2 * i + 1];
        let v: i32 = lo as i32 + 256 * (hi as i32);
        let s: i32 = if v >= 32768 {
            v - 65536
        } else {
            v
        };
        out.push(s as i16);
        i = i + 1;
    }
    out
}

/// The bounded playback queue: samples wait here between the converter and
/// the output callback. The feeder drops the oldest samples once the queue
/// is eight buffer-thresholds deep, preferring a skip over growing latency.
pub struct SampleQueue {
    samples: Vec<i16>,
    threshold: usize,
}

impl SampleQueue {
    /// The queued samples, oldest first.
    pub closed spec fn view(self) -> Seq<i16> {
        self.samples@
    }

    /// The buffer threshold the queue was built with.
    pub closed spec fn spec_threshold(self) -> usize {
        self.threshold
    }

    /// The queue never holds more than eight thresholds of samples.
    pub open spec fn inv(self) -> bool {
        &&& self.spec_threshold() <= usize::MAX / 8
        &&& self.view().len() <= 8 * self.spec_threshold()
    }

    pub fn new(threshold: usize) -> (r: Self)
        requires
            threshold <= usize::MAX / 8,
        ensures
            r.view() == Seq::<i16>::empty(),
            r.spec_threshold() == threshold,
            r.inv(),
    {
        let samples: Vec<i16> = Vec::new();
        proof {
            assert(samples@ =~= Seq::<i16>::empty());
        }
        SampleQueue { samples, threshold }
    }

    /// Number of queued samples.
    pub fn len(&self) -> (r: usize)
        ensures
            r == self.view().len(),
    {
        self.samples.len()
    }

    /// Append incoming samples, then drop the oldest ones until at most
    /// eight thresholds remain.
    pub fn append(&mut self, incoming: &[i16])
        requires
            old(self).inv(),
            old(self).view().len() + incoming@.len() <= usize::MAX,
        ensures
            final(self).spec_threshold() == old(self).spec_threshold(),
            final(self).inv(),
            ({
                let combined = old(self).view() + incoming@;
                final(self).view() == if combined.len() > 8 * old(self).spec_threshold() {
                    combined.skip(combined.len() - 8 * old(self).spec_threshold())
                } else {
                    combined
                }
            }),
    {
        self.samples.extend_from_slice(incoming);
        let cap = 8 * self.threshold;
        if self.samples.len() > cap {
            let start = self.samples.len() - cap;
            self.samples = vec_subrange(&self.samples, start, self.samples.len());
        }
    }

    /// Fill a playback request of `n` samples: the oldest queued samples
    /// first, zeros for whatever the queue cannot supply.
    pub fn fill(&mut self, n: usize) -> (r: Vec<i16>)
        ensures
            final(self).spec_threshold() == old(self).spec_threshold(),
            r@.len() == n,
            ({
                let take = if old(self).view().len() < n {
                    old(self).view().len() as int
                } else {
                    n as int
                };
                &&& forall|i: int| 0 <= i < take ==> r@[i] == old(self).view()[i]
                &&& forall|i: int| take <= i < n ==> r@[i] == 0i16
                &&& final(self).view() == old(self).view().skip(take)
            }),
            old(self).inv() ==> final(self).inv(),
    {
        let take = if self.samples.len() < n {
            self.samples.len()
        } else {
            n
        };
        let mut out = vec_subrange(&self.samples, 0, take);
        self.samples = vec_subrange(&self.samples, take, self.samples.len());
        let mut i = take;
        while i < n
            invariant
                take <= i <= n,
                out@.len() == i,
                forall|k: int| 0 <= k < take ==> out@[k] == old(self).view()[k],
                forall|k: int| take <= k < i ==> out@[k] == 0i16,
            decreases n - i,
        {
            out.push(0);
            i = i + 1;
        }
        out
    }
}

} // verus!
