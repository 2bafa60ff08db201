//! The decoder-to-renderer hand-off: decoded frames enter the latest-wins
//! frame slot.

use vstd::prelude::*;

use crate::decoder::YuvFrame;
use crate::frame::{FrameBuffer, FrameData};

verus! {

/// The slot form of a decoded frame: the same dimensions, planes and
/// strides.
pub open spec fn to_frame_data(y: YuvFrame) -> FrameData {
    FrameData {
        width: y.width,
        height: y.height,
        y_plane: y.y_plane,
        u_plane: y.u_plane,
        v_plane: y.v_plane,
        y_stride: y.y_stride,
        uv_stride: y.uv_stride,
    }
}

/// Push a batch of decoded frames into the frame slot, in order, counting
/// every frame. The slot keeps only the newest: after the call it holds
/// the batch's last frame, and everything older counts as skipped.
pub fn process_decoded_frames(frames: Vec<YuvFrame>, frame_buffer: &mut FrameBuffer, frame_count:
    &mut u64) -> (stored: usize)
    requires
        old(frame_buffer).count() + frames@.len() <= u64::MAX,
        old(frame_count) + frames@.len() <= u64::MAX,
    ensures
        stored == frames@.len(),
        *final(frame_count) == *old(frame_count) + frames@.len(),
        final(frame_buffer).count() == old(frame_buffer).count() + frames@.len(),
        frames@.len() > 0 ==> final(frame_buffer).slot() == Some(to_frame_data(frames@.last())),
        frames@.len() == 0 ==> final(frame_buffer).slot() == old(frame_buffer).slot(),
{
    let ghost orig = frames@;
    let total = frames.len();
    let mut frames = frames;
    let mut stored: usize = 0;
    while frames.len() > 0
        invariant
            total == orig.len(),
            stored + frames@.len() == orig.len(),
            frames@ == orig.skip(stored as int),
            frame_buffer.count() == old(frame_buffer).count() + stored,
            old(frame_buffer).count() + orig.len() <= u64::MAX,
            *frame_count == *old(frame_count) + stored,
            *old(frame_count) + orig.len() <= u64::MAX,
            stored > 0 ==> frame_buffer.slot() == Some(to_frame_data(orig[stored - 1])),
            stored == 0 ==> frame_buffer.slot() == old(frame_buffer).slot(),
        decreases frames@.len(),
    {
        let frame = frames.remove(0);
        proof {
            assert(frame == orig[stored as int]);
            assert(frames@ =~= orig.skip(stored + 1));
        }
        let data = FrameData {
            width: frame.width,
            height: frame.height,
            y_plane: frame.y_plane,
            u_plane: frame.u_plane,
            v_plane: frame.v_plane,
            y_stride: frame.y_stride,
            uv_stride: frame.uv_stride,
        };
        let _skipped = frame_buffer.push(data);
        *frame_count = *frame_count + 1;
        stored = stored + 1;
    }
    proof {
        assert(orig.len() > 0 ==> orig[orig.len() - 1] == orig.last());
    }
    stored
}

} // verus!
