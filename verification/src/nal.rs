//! Annex-B NAL-unit assembly.
//!
//! The splitter keeps a growable byte buffer. Each drain pass locates the
//! earliest four-byte start code `00 00 00 01`, discards any bytes in front
//! of it, and emits every byte range that runs from one start code up to the
//! next. The trailing range, which may still grow, stays buffered; when no
//! start code is present at all only the final three bytes are retained, so
//! a start code split across chunk boundaries is never missed.

use vstd::prelude::*;

use crate::bytes::vec_subrange;

verus! {

/// A four-byte Annex-B start code begins at position `i` of `s`.
pub open spec fn is_start_code_at(s: Seq<u8>, i: int) -> bool {
    &&& 0 <= i
    &&& i + 4 <= s.len()
    &&& s[i] == 0u8
    &&& s[i + 1] == 0u8
    &&& s[i + 2] == 0u8
    &&& s[i + 3] == 1u8
}

/// Position of the first start code of `s` at or after `i`, if any.
pub open spec fn find_start(s: Seq<u8>, i: int) -> Option<int>
    recommends
        0 <= i,
    decreases s.len() - i,
{
    if i + 4 > s.len() {
        None
    } else if is_start_code_at(s, i) {
        Some(i)
    } else {
        find_start(s, i + 1)
    }
}

/// What `find_start` returns: the first start-code position at or after `i`.
pub proof fn lemma_find_start_bounds(s: Seq<u8>, i: int)
    requires
        0 <= i,
    ensures
        match find_start(s, i) {
            Some(j) => {
                &&& i <= j
                &&& is_start_code_at(s, j)
                &&& forall|k: int| i <= k < j ==> !is_start_code_at(s, k)
            },
            None => forall|k: int| i <= k ==> !is_start_code_at(s, k),
        },
    decreases s.len() - i,
{
    if i + 4 > s.len() {
    } else if is_start_code_at(s, i) {
    } else {
        lemma_find_start_bounds(s, i + 1);
    }
}

/// Appending bytes does not move a start code that was already found.
pub proof fn lemma_find_start_extend(s: Seq<u8>, c: Seq<u8>, i: int)
    requires
        0 <= i,
        find_start(s, i) is Some,
    ensures
        find_start(s + c, i) == find_start(s, i),
    decreases s.len() - i,
{
    if i + 4 > s.len() {
    } else if is_start_code_at(s, i) {
        assert(is_start_code_at(s + c, i));
    } else {
        assert(!is_start_code_at(s + c, i));
        lemma_find_start_extend(s, c, i + 1);
    }
}

/// The NAL units and the retained remainder that draining a buffer yields.
pub open spec fn split_all(b: Seq<u8>) -> (Seq<Seq<u8>>, Seq<u8>)
    decreases b.len(),
    via split_all_decreases
{
    match find_start(b, 0) {
        None => {
            if b.len() > 3 {
                (Seq::<Seq<u8>>::empty(), b.skip(b.len() - 3))
            } else {
                (Seq::<Seq<u8>>::empty(), b)
            }
        },
        Some(p) => {
            if p > 0 {
                split_all(b.skip(p))
            } else {
                match find_start(b, 4) {
                    None => (Seq::<Seq<u8>>::empty(), b),
                    Some(q) => {
                        let r = split_all(b.skip(q));
                        (seq![b.take(q)] + r.0, r.1)
                    },
                }
            }
        },
    }
}

#[via_fn]
proof fn split_all_decreases(b: Seq<u8>) {
    lemma_find_start_bounds(b, 0);
    lemma_find_start_bounds(b, 4);
}

/// A buffer the splitter can be holding between drains: it either begins
/// with a start code or is too short to hold one.
pub open spec fn splitter_ok_buf(b: Seq<u8>) -> bool {
    is_start_code_at(b, 0) || b.len() <= 3
}

/// The remainder left by a drain always satisfies `splitter_ok_buf`.
pub proof fn lemma_split_all_rest_ok(b: Seq<u8>)
    ensures
        splitter_ok_buf(split_all(b).1),
    decreases b.len(),
{
    lemma_find_start_bounds(b, 0);
    match find_start(b, 0) {
        None => {},
        Some(p) => {
            if p > 0 {
                lemma_split_all_rest_ok(b.skip(p));
            } else {
                lemma_find_start_bounds(b, 4);
                match find_start(b, 4) {
                    None => {},
                    Some(q) => {
                        lemma_split_all_rest_ok(b.skip(q));
                    },
                }
            }
        },
    }
}

/// Draining `b` and then feeding `c` yields the same NAL units and the same
/// remainder as draining `b + c` in one pass, whenever `b` is a buffer the
/// splitter can be holding.
pub proof fn lemma_split_compose(b: Seq<u8>, c: Seq<u8>)
    requires
        splitter_ok_buf(b),
    ensures
        split_all(b + c).0 == split_all(b).0 + split_all(split_all(b).1 + c).0,
        split_all(b + c).1 == split_all(split_all(b).1 + c).1,
    decreases b.len(),
{
    lemma_find_start_bounds(b, 0);
    if !is_start_code_at(b, 0) {
        // b is shorter than a start code and is retained whole.
        assert(b.len() <= 3);
        assert(find_start(b, 0) is None);
        assert(split_all(b).1 == b);
        assert(split_all(b).0 =~= Seq::<Seq<u8>>::empty());
        assert(split_all(b + c).0 =~= split_all(b).0 + split_all(split_all(b).1 + c).0);
    } else {
        assert(find_start(b, 0) == Some(0int));
        lemma_find_start_bounds(b, 4);
        match find_start(b, 4) {
            None => {
                assert(split_all(b).1 == b);
                assert(split_all(b).0 =~= Seq::<Seq<u8>>::empty());
                assert(split_all(b + c).0 =~= split_all(b).0 + split_all(split_all(b).1 + c).0);
            },
            Some(q) => {
                assert(4 <= q && q + 4 <= b.len());
                assert(is_start_code_at(b + c, 0));
                assert(find_start(b + c, 0) == Some(0int));
                lemma_find_start_extend(b, c, 4);
                assert(find_start(b + c, 4) == Some(q));
                assert((b + c).take(q) =~= b.take(q));
                assert((b + c).skip(q) =~= b.skip(q) + c);
                assert(is_start_code_at(b.skip(q), 0));
                lemma_split_compose(b.skip(q), c);
                assert(split_all(b).0 == seq![b.take(q)] + split_all(b.skip(q)).0);
                assert(split_all(b).1 == split_all(b.skip(q)).1);
                assert(split_all(b + c).0 == seq![b.take(q)] + split_all(b.skip(q) + c).0);
                assert(split_all(b + c).0 =~= split_all(b).0 + split_all(split_all(b).1 + c).0);
            },
        }
    }
}

/// The concatenation of a sequence of byte chunks.
pub open spec fn concat_chunks(chunks: Seq<Seq<u8>>) -> Seq<u8>
    decreases chunks.len(),
{
    if chunks.len() == 0 {
        Seq::<u8>::empty()
    } else {
        concat_chunks(chunks.drop_last()) + chunks.last()
    }
}

/// The NAL units and remainder after feeding the chunks one by one into a
/// splitter that starts empty.
pub open spec fn feed_all(chunks: Seq<Seq<u8>>) -> (Seq<Seq<u8>>, Seq<u8>)
    decreases chunks.len(),
{
    if chunks.len() == 0 {
        (Seq::<Seq<u8>>::empty(), Seq::<u8>::empty())
    } else {
        let prev = feed_all(chunks.drop_last());
        let step = split_all(prev.1 + chunks.last());
        (prev.0 + step.0, step.1)
    }
}

/// A leading fragment of a well-formed stream is itself well-formed.
proof fn lemma_prefix_ok(a: Seq<u8>, b: Seq<u8>)
    requires
        splitter_ok_buf(a + b),
    ensures
        splitter_ok_buf(a),
{
    if a.len() > 3 {
        assert((a + b).len() > 3);
        assert(is_start_code_at(a + b, 0));
        assert(is_start_code_at(a, 0));
    }
}

/// NAL splitter round trip: feeding a well-formed Annex-B stream in any
/// chunking yields exactly the NAL units, and the same retained remainder,
/// as feeding the whole stream at once. A stream is well-formed when it
/// begins with a start code (or is shorter than one).
pub proof fn lemma_chunked_split_matches_whole(chunks: Seq<Seq<u8>>)
    requires
        splitter_ok_buf(concat_chunks(chunks)),
    ensures
        feed_all(chunks) == split_all(concat_chunks(chunks)),
    decreases chunks.len(),
{
    if chunks.len() == 0 {
        assert(split_all(Seq::<u8>::empty()).0 =~= Seq::<Seq<u8>>::empty());
        assert(split_all(Seq::<u8>::empty()).1 =~= Seq::<u8>::empty());
        assert(feed_all(chunks) == split_all(concat_chunks(chunks)));
    } else {
        let p = chunks.drop_last();
        let l = chunks.last();
        lemma_prefix_ok(concat_chunks(p), l);
        lemma_chunked_split_matches_whole(p);
        lemma_split_compose(concat_chunks(p), l);
        // The whole-stream drain composes as: drain the prefix, then drain
        // its remainder extended by the final chunk.
        assert(split_all(concat_chunks(chunks)).0 =~= feed_all(p).0 + split_all(
            feed_all(p).1 + l,
        ).0);
        assert(feed_all(chunks).0 =~= feed_all(p).0 + split_all(feed_all(p).1 + l).0);
    }
}

/// A NAL unit marks a keyframe boundary: its type, the low five bits of the
/// byte after the start code, is an IDR slice (5), an SPS (7) or a PPS (8).
pub open spec fn spec_is_keyframe(nal: Seq<u8>) -> bool {
    nal.len() > 4 && (nal[4] & 0x1F == 5 || nal[4] & 0x1F == 7 || nal[4] & 0x1F == 8)
}

/// Check whether a NAL unit qualifies as a keyframe boundary for resync.
pub fn is_keyframe(nal_data: &[u8]) -> (r: bool)
    ensures
        r == spec_is_keyframe(nal_data@),
{
    if nal_data.len() > 4 {
        let nal_type = nal_data[4] & 0x1F;
        nal_type == 5 || nal_type == 7 || nal_type == 8
    } else {
        false
    }
}

/// Find the first start code of `b` at or after `from`.
fn find_start_code(b: &Vec<u8>, from: usize) -> (r: Option<usize>)
    ensures
        match r {
            Some(j) => find_start(b@, from as int) == Some(j as int),
            None => find_start(b@, from as int) is None,
        },
{
    let mut i = from;
    loop
        invariant
            from <= i,
            find_start(b@, from as int) == find_start(b@, i as int),
        decreases b@.len() - i,
    {
        if b.len() < 4 || i > b.len() - 4 {
            return None;
        }
        if b[i] == 0 && b[i + 1] == 0 && b[i + 2] == 0 && b[i + 3] == 1 {
            assert(is_start_code_at(b@, i as int));
            return Some(i);
        }
        assert(!is_start_code_at(b@, i as int));
        i = i + 1;
    }
}

/// Splitter state: the bytes that have arrived but not yet been emitted as
/// complete NAL units.
pub struct NalSplitter {
    buffer: Vec<u8>,
}

impl NalSplitter {
    /// The buffered bytes.
    pub closed spec fn buf(self) -> Seq<u8> {
        self.buffer@
    }

    pub fn new() -> (r: Self)
        ensures
            r.buf() == Seq::<u8>::empty(),
    {
        let buffer: Vec<u8> = Vec::new();
        proof {
            assert(buffer@ =~= Seq::<u8>::empty());
        }
        NalSplitter { buffer }
    }

    /// Number of buffered bytes.
    pub fn buffered_len(&self) -> (r: usize)
        ensures
            r == self.buf().len(),
    {
        self.buffer.len()
    }

    /// Append an input chunk to the buffer without draining it.
    pub fn append(&mut self, chunk: &[u8])
        requires
            old(self).buf().len() + chunk@.len() <= usize::MAX,
        ensures
            final(self).buf() == old(self).buf() + chunk@,
    {
        self.buffer.extend_from_slice(chunk);
    }

    /// Retain only the final `k` buffered bytes (used for overflow recovery).
    pub fn keep_tail(&mut self, k: usize)
        ensures
            final(self).buf() == if old(self).buf().len() > k {
                old(self).buf().skip(old(self).buf().len() - k)
            } else {
                old(self).buf()
            },
    {
        if self.buffer.len() > k {
            let start = self.buffer.len() - k;
            self.buffer = vec_subrange(&self.buffer, start, self.buffer.len());
            proof {
                assert(self.buffer@ =~= old(self).buf().skip(old(self).buf().len() - k));
            }
        }
    }

    /// Drain every complete NAL unit from the buffer, in stream order.
    /// What stays buffered is composable: it begins with a start code or
    /// is shorter than one.
    pub fn drain(&mut self) -> (nals: Vec<Vec<u8>>)
        ensures
            nals@.map_values(|v: Vec<u8>| v@) == split_all(old(self).buf()).0,
            final(self).buf() == split_all(old(self).buf()).1,
            splitter_ok_buf(final(self).buf()),
    {
        proof {
            lemma_split_all_rest_ok(self.buf());
        }
        let mut nals: Vec<Vec<u8>> = Vec::new();
        proof {
            assert(nals@.map_values(|v: Vec<u8>| v@) =~= Seq::<Seq<u8>>::empty());
        }
        loop
            invariant
                split_all(old(self).buf()).0 == nals@.map_values(|v: Vec<u8>| v@) + split_all(
                    self.buf(),
                ).0,
                split_all(old(self).buf()).1 == split_all(self.buf()).1,
            ensures
                split_all(self.buf()).0 == Seq::<Seq<u8>>::empty(),
                split_all(self.buf()).1 == self.buf(),
            decreases self.buf().len(),
        {
            let ghost pre = self.buffer@;
            proof {
                lemma_find_start_bounds(pre, 0);
            }
            match find_start_code(&self.buffer, 0) {
                None => {
                    if self.buffer.len() > 3 {
                        let start = self.buffer.len() - 3;
                        self.buffer = vec_subrange(&self.buffer, start, self.buffer.len());
                        proof {
                            assert(self.buffer@ =~= pre.skip(pre.len() - 3));
                            assert(find_start(self.buffer@, 0) is None) by {
                                lemma_find_start_bounds(self.buffer@, 0);
                                assert forall|k: int| 0 <= k implies !is_start_code_at(
                                    self.buffer@,
                                    k,
                                ) by {
                                    if is_start_code_at(self.buffer@, k) {
                                        assert(is_start_code_at(pre, k + pre.len() - 3));
                                    }
                                }
                            }
                        }
                    }
                    return nals;
                },
                Some(p) => {
                    if p > 0 {
                        let len = self.buffer.len();
                        self.buffer = vec_subrange(&self.buffer, p, len);
                        proof {
                            assert(self.buffer@ =~= pre.skip(p as int));
                        }
                    } else {
                        proof {
                            lemma_find_start_bounds(pre, 4);
                        }
                        match find_start_code(&self.buffer, 4) {
                            None => {
                                return nals;
                            },
                            Some(q) => {
                                let nal = vec_subrange(&self.buffer, 0, q);
                                let len = self.buffer.len();
                                self.buffer = vec_subrange(&self.buffer, q, len);
                                proof {
                                    assert(nal@ =~= pre.take(q as int));
                                    assert(self.buffer@ =~= pre.skip(q as int));
                                }
                                nals.push(nal);
                                proof {
                                    assert(nals@.map_values(|v: Vec<u8>| v@) =~= nals@.drop_last()
                                        .map_values(|v: Vec<u8>| v@).push(nal@));
                                    assert(split_all(old(self).buf()).0 =~= nals@.map_values(
                                        |v: Vec<u8>| v@,
                                    ) + split_all(self.buf()).0);
                                }
                            },
                        }
                    }
                },
            }
        }
    }

    /// Append a chunk and drain every complete NAL unit it makes available.
    pub fn push_chunk(&mut self, chunk: &[u8]) -> (nals: Vec<Vec<u8>>)
        requires
            old(self).buf().len() + chunk@.len() <= usize::MAX,
        ensures
            nals@.map_values(|v: Vec<u8>| v@) == split_all(old(self).buf() + chunk@).0,
            final(self).buf() == split_all(old(self).buf() + chunk@).1,
            splitter_ok_buf(final(self).buf()),
    {
        self.append(chunk);
        self.drain()
    }
}

} // verus!
