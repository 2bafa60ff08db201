//! Single-slot latest-wins frame buffer shared between decoder and renderer.

use vstd::prelude::*;

verus! {

/// A single decoded video frame with tightly packed YUV I420 planes.
///
/// The Y plane is full resolution, the U and V planes are half resolution in
/// each dimension; `y_stride` and `uv_stride` are the packed row lengths.
#[derive(Clone)]
pub struct FrameData {
    pub width: u32,
    pub height: u32,
    pub y_plane: Vec<u8>,
    pub u_plane: Vec<u8>,
    pub v_plane: Vec<u8>,
    pub y_stride: usize,
    pub uv_stride: usize,
}

impl FrameData {
    /// Packed I420 layout: strides match the plane widths and each plane
    /// holds exactly its rows.
    pub open spec fn well_formed(self) -> bool {
        &&& self.y_stride == self.width as int
        &&& self.uv_stride == self.width as int / 2
        &&& self.y_plane@.len() == self.width * self.height
        &&& self.u_plane@.len() == (self.width as int / 2) * (self.height as int / 2)
        &&& self.v_plane@.len() == (self.width as int / 2) * (self.height as int / 2)
    }
}

/// Holds at most one pending frame plus a total push counter.
///
/// Pushing into an occupied slot replaces the held frame, so a slow consumer
/// never accumulates latency: the slot is latest-wins.
pub struct FrameBuffer {
    pending_frame: Option<FrameData>,
    frame_count: u64,
}

impl FrameBuffer {
    pub closed spec fn slot(self) -> Option<FrameData> {
        self.pending_frame
    }

    pub closed spec fn count(self) -> u64 {
        self.frame_count
    }

    pub fn new() -> (r: Self)
        ensures
            r.slot() is None,
            r.count() == 0,
    {
        FrameBuffer { pending_frame: None, frame_count: 0 }
    }

    /// Push a new frame, replacing any pending frame.
    /// Returns true exactly when a previously pending frame was dropped.
    pub fn push(&mut self, frame: FrameData) -> (skipped: bool)
        requires
            old(self).count() < u64::MAX,
        ensures
            final(self).slot() == Some(frame),
            final(self).count() == old(self).count() + 1,
            skipped == (old(self).slot() is Some),
    {
        let skipped = self.pending_frame.is_some();
        self.pending_frame = Some(frame);
        self.frame_count = self.frame_count + 1;
        skipped
    }

    /// Take the pending frame out, leaving the slot empty.
    pub fn consume(&mut self) -> (r: Option<FrameData>)
        ensures
            r == old(self).slot(),
            final(self).slot() is None,
            final(self).count() == old(self).count(),
    {
        self.pending_frame.take()
    }

    /// Total number of frames ever pushed.
    pub fn get_count(&self) -> (r: u64)
        ensures
            r == self.count(),
    {
        self.frame_count
    }
}

impl Default for FrameBuffer {
    fn default() -> (r: Self)
        ensures
            r.slot() is None,
            r.count() == 0,
    {
        FrameBuffer::new()
    }
}


/// One operation on the frame slot, for stating its history laws.
pub enum SlotOp {
    Push(FrameData),
    Consume,
}

/// The frame held after a history of operations, per the contracts of
/// `push` (the slot then holds the pushed frame) and `consume` (the slot
/// is then empty).
pub open spec fn slot_after(ops: Seq<SlotOp>) -> Option<FrameData>
    decreases ops.len(),
{
    if ops.len() == 0 {
        None
    } else {
        match ops.last() {
            SlotOp::Push(f) => Some(f),
            SlotOp::Consume => None,
        }
    }
}

/// Every frame pushed over a history, in push order.
pub open spec fn pushed_of(ops: Seq<SlotOp>) -> Seq<FrameData>
    decreases ops.len(),
{
    if ops.len() == 0 {
        Seq::empty()
    } else {
        pushed_of(ops.drop_last()) + (match ops.last() {
            SlotOp::Push(f) => seq![f],
            SlotOp::Consume => Seq::empty(),
        })
    }
}

/// Every frame a consume handed out over a history, in consume order.
pub open spec fn consumed_of(ops: Seq<SlotOp>) -> Seq<FrameData>
    decreases ops.len(),
{
    if ops.len() == 0 {
        Seq::empty()
    } else {
        consumed_of(ops.drop_last()) + (match ops.last() {
            SlotOp::Push(_) => Seq::empty(),
            SlotOp::Consume => match slot_after(ops.drop_last()) {
                Some(f) => seq![f],
                None => Seq::empty(),
            },
        })
    }
}

/// `a` is a subsequence of `b`: `a` can be read off `b` in order by
/// skipping elements.
pub open spec fn is_subseq_of(a: Seq<FrameData>, b: Seq<FrameData>) -> bool
    decreases b.len(),
{
    if a.len() == 0 {
        true
    } else if b.len() == 0 {
        false
    } else if a.last() == b.last() {
        is_subseq_of(a.drop_last(), b.drop_last())
    } else {
        is_subseq_of(a, b.drop_last())
    }
}

/// Dropping the last element keeps a subsequence a subsequence.
proof fn lemma_subseq_drop_left(a: Seq<FrameData>, b: Seq<FrameData>)
    requires
        is_subseq_of(a, b),
        a.len() > 0,
    ensures
        is_subseq_of(a.drop_last(), b),
    decreases b.len(),
{
    let a1 = a.drop_last();
    if a1.len() == 0 {
    } else if a.last() == b.last() {
        // is_subseq_of(a1, b.drop_last()) holds; weaken it to b.
        if a1.last() == b.last() {
            lemma_subseq_drop_left(a1, b.drop_last());
        }
    } else {
        lemma_subseq_drop_left(a, b.drop_last());
        if a1.last() == b.last() {
            lemma_subseq_drop_left(a1, b.drop_last());
        }
    }
}

/// Appending the same element to both sides keeps a subsequence.
proof fn lemma_subseq_push_both(a: Seq<FrameData>, b: Seq<FrameData>, x: FrameData)
    requires
        is_subseq_of(a, b),
    ensures
        is_subseq_of(a.push(x), b.push(x)),
{
    assert(a.push(x).drop_last() =~= a);
    assert(b.push(x).drop_last() =~= b);
}

/// The held frame as a sequence of at most one element.
pub open spec fn slot_seq(ops: Seq<SlotOp>) -> Seq<FrameData> {
    match slot_after(ops) {
        Some(f) => seq![f],
        None => Seq::empty(),
    }
}

proof fn lemma_slot_invariant(ops: Seq<SlotOp>)
    ensures
        is_subseq_of(consumed_of(ops) + slot_seq(ops), pushed_of(ops)),
    decreases ops.len(),
{
    if ops.len() == 0 {
        assert(consumed_of(ops) + slot_seq(ops) =~= Seq::<FrameData>::empty());
    } else {
        let p = ops.drop_last();
        lemma_slot_invariant(p);
        match ops.last() {
            SlotOp::Push(f) => {
                assert(consumed_of(ops) =~= consumed_of(p));
                assert(pushed_of(ops) =~= pushed_of(p).push(f));
                // The combined sequence loses whatever the slot held and
                // gains the new frame.
                if slot_after(p) is Some {
                    assert((consumed_of(p) + slot_seq(p)).drop_last() =~= consumed_of(p));
                    lemma_subseq_drop_left(consumed_of(p) + slot_seq(p), pushed_of(p));
                } else {
                    assert(consumed_of(p) + slot_seq(p) =~= consumed_of(p));
                }
                lemma_subseq_push_both(consumed_of(p), pushed_of(p), f);
                assert(consumed_of(ops) + slot_seq(ops) =~= consumed_of(p).push(f));
            },
            SlotOp::Consume => {
                assert(pushed_of(ops) =~= pushed_of(p));
                // Consuming moves the held frame, if any, to the consumed
                // side; the combined sequence is unchanged.
                match slot_after(p) {
                    Some(f) => {
                        assert(consumed_of(ops) + slot_seq(ops) =~= consumed_of(p) + slot_seq(p));
                    },
                    None => {
                        assert(consumed_of(ops) + slot_seq(ops) =~= consumed_of(p) + slot_seq(p));
                    },
                }
            },
        }
    }
}

/// The frame slot is latest-wins: over any interleaving of pushes and
/// consumes, the consumed frames form a subsequence of the pushed frames
/// in push order. (That at most one frame is held at a time is immediate:
/// the slot is a single `Option`.) The history semantics used here are
/// exactly the contracts of `push` and `consume`.
pub proof fn lemma_frame_slot_latest_wins(ops: Seq<SlotOp>)
    ensures
        is_subseq_of(consumed_of(ops), pushed_of(ops)),
{
    lemma_slot_invariant(ops);
    if slot_after(ops) is Some {
        assert((consumed_of(ops) + slot_seq(ops)).drop_last() =~= consumed_of(ops));
        lemma_subseq_drop_left(consumed_of(ops) + slot_seq(ops), pushed_of(ops));
    } else {
        assert(consumed_of(ops) + slot_seq(ops) =~= consumed_of(ops));
    }
}

} // verus!
