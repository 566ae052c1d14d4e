//! Sharding-client primitives: the blob/chunk codec, the collation header
//! commitment, and the notary's per-shard collation bookkeeping.
//!
//! A blob of arbitrary bytes is tiled into 32-byte chunks (one indicator byte
//! plus 31 payload bytes each) and can be reassembled losslessly; a collation
//! header binds a shard id, parent hash, chunk root and period into a single
//! SHA3-256 digest.

pub mod blob;
pub mod body;
pub mod chunk;
pub mod header;
pub mod notary;
pub mod word;

use vstd::prelude::*;

verus! {

/// Size in bytes of one chunk on the wire: one indicator byte plus the payload.
pub const CHUNK_SIZE: usize = 32;

/// Number of blob bytes that one chunk can carry.
pub const CHUNK_DATA_SIZE: usize = 31;

} // verus!
