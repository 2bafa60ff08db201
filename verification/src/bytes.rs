//! Byte-level helpers shared by the wire parsers and the command encoder:
//! big-endian integer readers, decimal rendering, and ASCII utilities.

use vstd::prelude::*;

verus! {

/// No line feed occurs in `s`.
pub open spec fn no_newline(s: Seq<u8>) -> bool {
    forall|i: int| 0 <= i < s.len() ==> s[i] != 10u8
}

/// The big-endian value of four bytes.
pub open spec fn be_u32(b0: u8, b1: u8, b2: u8, b3: u8) -> int {
    b0 * 0x1000000 + b1 * 0x10000 + b2 * 0x100 + b3
}

/// The big-endian value of eight bytes.
pub open spec fn be_u64(b: Seq<u8>) -> int
    recommends
        b.len() == 8,
{
    b[0] * 0x100000000000000 + b[1] * 0x1000000000000 + b[2] * 0x10000000000 + b[3] * 0x100000000
        + b[4] * 0x1000000 + b[5] * 0x10000 + b[6] * 0x100 + b[7]
}

/// Read a big-endian `u32` from `b` at offset `at`.
pub fn read_be_u32(b: &[u8], at: usize) -> (r: u32)
    requires
        at + 4 <= b@.len(),
    ensures
        r == be_u32(b@[at as int], b@[at + 1], b@[at + 2], b@[at + 3]),
{
    let r: u32 = (b[at] as u32) * 0x1000000 + (b[at + 1] as u32) * 0x10000 + (b[at + 2] as u32)
        * 0x100 + (b[at + 3] as u32);
    r
}

/// Read a big-endian `u64` from `b` at offset `at`.
pub fn read_be_u64(b: &[u8], at: usize) -> (r: u64)
    requires
        at + 8 <= b@.len(),
    ensures
        r == be_u64(b@.subrange(at as int, at + 8)),
{
    let r: u64 = (b[at] as u64) * 0x100000000000000 + (b[at + 1] as u64) * 0x1000000000000 + (b[at
        + 2] as u64) * 0x10000000000 + (b[at + 3] as u64) * 0x100000000 + (b[at + 4] as u64)
        * 0x1000000 + (b[at + 5] as u64) * 0x10000 + (b[at + 6] as u64) * 0x100 + (b[at + 7]
        as u64);
    proof {
        let s = b@.subrange(at as int, at + 8);
        assert(s[0] == b@[at as int] && s[1] == b@[at + 1] && s[2] == b@[at + 2] && s[3] == b@[at
            + 3] && s[4] == b@[at + 4] && s[5] == b@[at + 5] && s[6] == b@[at + 6] && s[7] == b@[at
            + 7]);
    }
    r
}

/// The ASCII decimal digits of `n`, most significant first.
pub open spec fn dec_digits(n: nat) -> Seq<u8>
    decreases n,
{
    if n < 10 {
        seq![(48 + n) as u8]
    } else {
        dec_digits(n / 10).push((48 + n % 10) as u8)
    }
}

/// Every byte of a decimal rendering is an ASCII digit.
pub proof fn lemma_dec_digits_are_digits(n: nat)
    ensures
        forall|i: int| 0 <= i < dec_digits(n).len() ==> 48 <= #[trigger] dec_digits(n)[i] <= 57,
    decreases n,
{
    if n >= 10 {
        lemma_dec_digits_are_digits(n / 10);
        assert forall|i: int| 0 <= i < dec_digits(n).len() implies 48 <= #[trigger] dec_digits(n)[i]
            <= 57 by {
            if i < dec_digits(n / 10).len() {
                assert(dec_digits(n)[i] == dec_digits(n / 10)[i]);
            }
        }
    }
}

/// A decimal rendering never holds a line feed.
pub proof fn lemma_dec_digits_no_newline(n: nat)
    ensures
        no_newline(dec_digits(n)),
{
    lemma_dec_digits_are_digits(n);
}

/// Render `n` in decimal, most significant digit first.
pub fn u64_to_dec(n: u64) -> (r: Vec<u8>)
    ensures
        r@ == dec_digits(n as nat),
    decreases n,
{
    if n < 10 {
        let mut v: Vec<u8> = Vec::new();
        v.push(48 + n as u8);
        proof {
            assert(v@ =~= dec_digits(n as nat));
        }
        v
    } else {
        let mut v = u64_to_dec(n / 10);
        v.push(48 + (n % 10) as u8);
        v
    }
}

/// Render `n` in decimal.
pub fn u32_to_dec(n: u32) -> (r: Vec<u8>)
    ensures
        r@ == dec_digits(n as nat),
{
    u64_to_dec(n as u64)
}

/// The decimal rendering of `n`, with a leading minus sign when negative.
pub open spec fn dec_digits_signed(n: int) -> Seq<u8> {
    if n >= 0 {
        dec_digits(n as nat)
    } else {
        seq![45u8] + dec_digits((-n) as nat)
    }
}

/// A signed decimal rendering never holds a line feed.
pub proof fn lemma_dec_digits_signed_no_newline(n: int)
    ensures
        no_newline(dec_digits_signed(n)),
{
    if n >= 0 {
        lemma_dec_digits_no_newline(n as nat);
    } else {
        lemma_dec_digits_no_newline((-n) as nat);
        assert forall|i: int| 0 <= i < dec_digits_signed(n).len() implies #[trigger] dec_digits_signed(
            n,
        )[i] != 10u8 by {
            if i > 0 {
                assert(dec_digits_signed(n)[i] == dec_digits((-n) as nat)[i - 1]);
            }
        }
    }
}

/// Render `n` in decimal with a sign when negative.
pub fn i64_to_dec(n: i64) -> (r: Vec<u8>)
    requires
        n > i64::MIN,
    ensures
        r@ == dec_digits_signed(n as int),
{
    if n >= 0 {
        u64_to_dec(n as u64)
    } else {
        let mut v: Vec<u8> = Vec::new();
        v.push(45);
        let mag = u64_to_dec((-n) as u64);
        v.extend_from_slice(mag.as_slice());
        proof {
            assert(v@ =~= dec_digits_signed(n as int));
        }
        v
    }
}

/// Copy `v[start..end]` into a fresh vector.
pub fn vec_subrange<T: Copy>(v: &Vec<T>, start: usize, end: usize) -> (r: Vec<T>)
    requires
        start <= end <= v@.len(),
    ensures
        r@ == v@.subrange(start as int, end as int),
{
    let mut r: Vec<T> = Vec::new();
    let mut i = start;
    while i < end
        invariant
            start <= i <= end <= v@.len(),
            r@ == v@.subrange(start as int, i as int),
        decreases end - i,
    {
        r.push(v[i]);
        i = i + 1;
        proof {
            assert(r@ =~= v@.subrange(start as int, i as int));
        }
    }
    r
}

} // verus!
