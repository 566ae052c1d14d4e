//! A 256-bit value held as 32 big-endian bytes.
//!
//! Shard ids, periods, parent hashes, chunk roots and header digests are all
//! 256-bit quantities that the header commitment serializes to exactly 32
//! bytes; one fixed-width byte type covers them all.

use vstd::prelude::*;

verus! {

/// A 256-bit value: 32 bytes, most significant first.
#[derive(PartialEq, Eq, Hash, Debug, Clone, Copy)]
pub struct Word256 {
    bytes: [u8; 32],
}

impl View for Word256 {
    type V = Seq<u8>;

    closed spec fn view(&self) -> Seq<u8> {
        self.bytes@
    }
}

/// Byte `k` (most significant first) of the big-endian encoding of a `u64`.
pub open spec fn u64_be_byte(x: u64, k: int) -> u8
    recommends
        0 <= k < 8,
{
    ((x >> ((56 - 8 * k) as u64)) & 0xff) as u8
}

impl Word256 {
    /// The all-zero word.
    pub fn zero() -> (r: Word256)
        ensures
            r@ == Seq::new(32, |i: int| 0u8),
    {
        let r = Word256 { bytes: [0;32] };
        proof {
            assert(r@ =~= Seq::new(32, |i: int| 0u8));
        }
        r
    }

    /// The word with value `x`: 24 zero bytes followed by the big-endian
    /// bytes of `x`.
    pub fn from_u64(x: u64) -> (r: Word256)
        ensures
            forall|i: int| 0 <= i < 24 ==> r@[i] == 0,
            forall|k: int| 0 <= k < 8 ==> r@[24 + k] == u64_be_byte(x, k),
    {
        let mut bytes: [u8; 32] = [0;32];
        let mut k: usize = 0;
        while k < 8
            invariant
                k <= 8,
                forall|i: int| 0 <= i < 24 ==> bytes@[i] == 0,
                forall|j: int| 0 <= j < k ==> bytes@[24 + j] == u64_be_byte(x, j),
            decreases 8 - k,
        {
            let sh: u64 = (56 - 8 * k) as u64;
            bytes[24 + k] = ((x >> sh) & 0xff) as u8;
            k = k + 1;
        }
        Word256 { bytes }
    }

    /// The word made of the given 32 bytes, most significant first.
    pub fn from_bytes(bytes: [u8; 32]) -> (r: Word256)
        ensures
            r@ == bytes@,
    {
        Word256 { bytes }
    }

    /// The word's 32 bytes, most significant first.
    pub fn to_bytes(&self) -> (r: [u8; 32])
        ensures
            r@ == self@,
    {
        self.bytes
    }

    /// Byte-for-byte equality of two words.
    pub fn eq_word(&self, other: &Word256) -> (r: bool)
        ensures
            r == (self@ == other@),
    {
        let mut i: usize = 0;
        while i < 32
            invariant
                i <= 32,
                forall|j: int| 0 <= j < i ==> self@[j] == other@[j],
            decreases 32 - i,
        {
            if self.bytes[i] != other.bytes[i] {
                return false;
            }
            i = i + 1;
        }
        proof {
            assert(self@ =~= other@);
        }
        true
    }

    /// Append the word's 32 bytes to a buffer.
    pub fn append_to(&self, buf: &mut Vec<u8>)
        ensures
            final(buf)@ == old(buf)@ + self@,
    {
        let ghost prefix = buf@;
        let mut i: usize = 0;
        while i < 32
            invariant
                i <= 32,
                buf@ == prefix + self@.subrange(0, i as int),
            decreases 32 - i,
        {
            proof {
                assert(buf@.push(self@[i as int]) =~= prefix + self@.subrange(0, i + 1));
            }
            buf.push(self.bytes[i]);
            i = i + 1;
        }
        proof {
            assert(prefix + self@.subrange(0, 32) =~= prefix + self@);
        }
    }
}

} // verus!
