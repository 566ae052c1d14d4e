//! The collation header and its commitment: a SHA3-256 digest over the
//! header's four 256-bit fields, each serialized to 32 big-endian bytes and
//! concatenated in the fixed order shard id, parent hash, chunk root, period.

use vstd::prelude::*;

use crate::word::Word256;

verus! {

/// The SHA3-256 digest, as 32 bytes, of a byte sequence.  The digest is a
/// pure function of the input bytes alone; its value is not stated here.
pub uninterp spec fn sha3_of(input: Seq<u8>) -> Seq<u8>;

/// Relies on tiny_keccak's `Sha3::v256` (FIPS-202 SHA3-256): the digest is a
/// pure function of the input bytes and is exactly 32 bytes long.
#[verifier::external_body]
fn sha3_256(input: &Vec<u8>) -> (digest: [u8; 32])
    ensures
        digest@ == sha3_of(input@),
{
    let mut sha3 = tiny_keccak::Sha3::v256();
    tiny_keccak::Hasher::update(&mut sha3, input.as_slice());
    let mut out: [u8; 32] = [0; 32];
    tiny_keccak::Hasher::finalize(sha3, &mut out);
    out
}

/// A collation header: the four 256-bit fields that identify a collation.
#[derive(PartialEq, Eq, Debug, Clone, Copy)]
pub struct Header {
    shard_id: Word256,
    parent_hash: Word256,
    chunk_root: Word256,
    period: Word256,
}

impl View for Header {
    type V = Seq<u8>;

    /// The header's serialization: the four fields' 32 bytes each,
    /// concatenated in the fixed order, 128 bytes in all.
    closed spec fn view(&self) -> Seq<u8> {
        self.shard_id@ + self.parent_hash@ + self.chunk_root@ + self.period@
    }
}

impl Header {
    pub fn new(shard_id: Word256, parent_hash: Word256, chunk_root: Word256, period: Word256) -> (h:
        Header)
        ensures
            h@ == shard_id@ + parent_hash@ + chunk_root@ + period@,
    {
        Header { shard_id, parent_hash, chunk_root, period }
    }

    /// The header commitment: the SHA3-256 digest of the header's 128-byte
    /// serialization.  The digest is a function of the four fields alone, so
    /// two headers with equal fields always hash to the same value.
    pub fn hash(&self) -> (digest: Word256)
        ensures
            digest@ == sha3_of(self@),
    {
        let mut buf: Vec<u8> = Vec::new();
        self.shard_id.append_to(&mut buf);
        self.parent_hash.append_to(&mut buf);
        self.chunk_root.append_to(&mut buf);
        self.period.append_to(&mut buf);
        proof {
            assert(buf@ =~= self@);
        }
        let digest = sha3_256(&buf);
        Word256::from_bytes(digest)
    }
}

} // verus!
