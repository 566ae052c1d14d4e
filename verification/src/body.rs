//! Collation sizing and the collation container: an immutable configuration
//! of the derived size constants, a body holding a bounded chunk sequence,
//! and the collation pairing a body with its header.

use vstd::prelude::*;

use crate::blob::views_of;
use crate::chunk::Chunk;
use crate::header::Header;

verus! {

/// A codec failure, reported to the caller as a typed result.
#[derive(PartialEq, Eq, Structural, Debug, Clone, Copy)]
pub enum CodecError {
    /// The input cannot be encoded: the blob exceeds the configured maximum
    /// size.
    InvalidInput,
    /// A segmented chunk count exceeds the collation capacity.
    SizeLimitExceeded,
}

/// The collation sizing configuration: how many chunks one collation may
/// hold, with the derived byte sizes.  Passed to the codec explicitly so
/// that capacity limits are testable with small values.
#[derive(PartialEq, Eq, Debug, Clone, Copy)]
pub struct CollationVariables {
    collation_size: u32,
    chunks_per_collation: usize,
    max_blob_size: usize,
}

impl CollationVariables {
    /// How many chunks one collation may hold.
    pub closed spec fn spec_capacity(self) -> nat {
        self.chunks_per_collation as nat
    }

    #[verifier::type_invariant]
    spec fn inv(self) -> bool {
        &&& self.collation_size == self.chunks_per_collation * 32
        &&& self.max_blob_size == self.chunks_per_collation * 31
    }

    /// A configuration holding `chunks_per_collation` chunks per collation;
    /// rejected when the derived collation size would not fit in 32 bits.
    pub fn new(chunks_per_collation: usize) -> (r: Result<CollationVariables, CodecError>)
        ensures
            match r {
                Ok(v) => chunks_per_collation * 32 <= u32::MAX && v.spec_capacity()
                    == chunks_per_collation,
                Err(e) => chunks_per_collation * 32 > u32::MAX && e == CodecError::InvalidInput,
            },
    {
        proof {
            vstd::arithmetic::div_mod::lemma_fundamental_div_mod(u32::MAX as int, 32);
        }
        if chunks_per_collation > (u32::MAX as usize) / 32 {
            assert(chunks_per_collation * 32 > u32::MAX) by (nonlinear_arith)
                requires
                    chunks_per_collation > (u32::MAX as int) / 32,
            ;
            Err(CodecError::InvalidInput)
        } else {
            assert(chunks_per_collation * 32 <= u32::MAX) by (nonlinear_arith)
                requires
                    chunks_per_collation <= (u32::MAX as int) / 32,
            ;
            Ok(
                CollationVariables {
                    collation_size: (chunks_per_collation * 32) as u32,
                    chunks_per_collation,
                    max_blob_size: chunks_per_collation * 31,
                },
            )
        }
    }

    /// The standard configuration: 32768 chunks, a collation of 1048576
    /// bytes.
    pub fn standard() -> (v: CollationVariables)
        ensures
            v.spec_capacity() == 32768,
    {
        CollationVariables { collation_size: 1048576, chunks_per_collation: 32768, max_blob_size: 1015808 }
    }

    /// The collation's size in bytes: 32 bytes for each chunk it may hold.
    pub fn collation_size(&self) -> (r: u32)
        ensures
            r == self.spec_capacity() * 32,
    {
        proof {
            use_type_invariant(self);
        }
        self.collation_size
    }

    /// How many chunks one collation may hold.
    pub fn chunks_per_collation(&self) -> (r: usize)
        ensures
            r == self.spec_capacity(),
    {
        self.chunks_per_collation
    }

    /// The largest blob that fits in one collation: 31 bytes for each chunk.
    pub fn max_blob_size(&self) -> (r: usize)
        ensures
            r == self.spec_capacity() * 31,
    {
        proof {
            use_type_invariant(self);
        }
        self.max_blob_size
    }

    /// Check a segmented chunk count against the collation capacity; a count
    /// over the capacity is an error, never silently spanned over several
    /// collations.
    pub fn check_chunk_count(&self, count: usize) -> (r: Result<(), CodecError>)
        ensures
            match r {
                Ok(_) => count <= self.spec_capacity(),
                Err(e) => count > self.spec_capacity() && e == CodecError::SizeLimitExceeded,
            },
    {
        if count <= self.chunks_per_collation {
            Ok(())
        } else {
            Err(CodecError::SizeLimitExceeded)
        }
    }
}

/// A collation body: the ordered chunk sequence of one collation, at most
/// the configured capacity many chunks.
#[derive(PartialEq, Debug, Clone)]
pub struct Body {
    chunks: Vec<Chunk>,
}

impl View for Body {
    type V = Seq<Seq<u8>>;

    /// The wire bytes of the body's chunks, in order.
    closed spec fn view(&self) -> Seq<Seq<u8>> {
        views_of(self.chunks@)
    }
}

impl Body {
    /// An empty body.
    pub fn new() -> (b: Body)
        ensures
            b@ == Seq::<Seq<u8>>::empty(),
    {
        let b = Body { chunks: Vec::new() };
        proof {
            assert(b@ =~= Seq::<Seq<u8>>::empty());
        }
        b
    }

    /// A body holding the given chunks, rejected when they exceed the
    /// configured capacity.
    pub fn with_chunks(chunks: Vec<Chunk>, vars: &CollationVariables) -> (r: Result<
        Body,
        CodecError,
    >)
        ensures
            match r {
                Ok(b) => chunks@.len() <= vars.spec_capacity() && b@ == views_of(chunks@),
                Err(e) => chunks@.len() > vars.spec_capacity() && e == CodecError::SizeLimitExceeded,
            },
    {
        match vars.check_chunk_count(chunks.len()) {
            Ok(_) => Ok(Body { chunks }),
            Err(e) => Err(e),
        }
    }

    /// The body's chunks, in order.
    pub fn chunks(&self) -> (r: &Vec<Chunk>)
        ensures
            views_of(r@) == self@,
    {
        &self.chunks
    }
}

/// A collation: one header paired with one body.
#[derive(PartialEq, Debug, Clone)]
pub struct Collation {
    header: Header,
    body: Body,
}

impl Collation {
    pub closed spec fn spec_header(self) -> Header {
        self.header
    }

    pub closed spec fn spec_body(self) -> Body {
        self.body
    }

    pub fn new(header: Header, body: Body) -> (c: Collation)
        ensures
            c.spec_header() == header,
            c.spec_body() == body,
    {
        Collation { header, body }
    }

    pub fn header(&self) -> (r: &Header)
        ensures
            r == self.spec_header(),
    {
        &self.header
    }

    pub fn body(&self) -> (r: &Body)
        ensures
            r == self.spec_body(),
    {
        &self.body
    }
}

} // verus!
