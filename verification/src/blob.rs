//! The blob/chunk codec: segmentation of an arbitrary-length byte blob into
//! 32-byte chunks and lossless reassembly.
//!
//! Every chunk carries 31 payload bytes after its indicator byte.  The last
//! chunk of a blob is the terminal chunk: its indicator's low five bits hold
//! the count of significant payload bytes, and the rest of its payload is
//! zero padding.  When the blob length is a nonzero multiple of 31 the
//! terminal chunk carries 31 significant bytes and its declared length stays
//! `0`; the position of the chunk in the sequence, not a sentinel indicator
//! value, is what marks termination.
//!
//! An accepted limitation: an empty blob segments into no chunks at all, and
//! an empty chunk sequence reassembles into the empty blob, so once chunked
//! an empty blob and the absence of data are indistinguishable.

use vstd::arithmetic::div_mod::{lemma_fundamental_div_mod, lemma_fundamental_div_mod_converse};
use vstd::prelude::*;

use crate::chunk::{spec_indicator, Chunk};

verus! {

/// A blob of application data of arbitrary size.
#[derive(PartialEq, Debug, Clone)]
pub struct Blob {
    data: Vec<u8>,
}

impl View for Blob {
    type V = Seq<u8>;

    closed spec fn view(&self) -> Seq<u8> {
        self.data@
    }
}

/// How many chunks a blob of `n` bytes needs: `n / 31` rounded up.
pub open spec fn chunk_count(n: nat) -> nat {
    (n + 30) / 31
}

/// A run of `n` zero bytes.
pub open spec fn zero_bytes(n: nat) -> Seq<u8> {
    Seq::new(n, |i: int| 0u8)
}

/// The wire bytes of chunk `i` of the segmentation of `data`: the indicator
/// byte followed by the 31 payload bytes.  Every chunk but the last carries
/// 31 blob bytes verbatim and declares length `0`; the last chunk carries the
/// remaining bytes, zero padded, and declares `data.len() % 31`.
pub open spec fn spec_chunk_at(data: Seq<u8>, skip_evm: bool, i: int) -> Seq<u8>
    recommends
        0 <= i < chunk_count(data.len()),
{
    let n = data.len() as int;
    if i < chunk_count(data.len()) - 1 {
        seq![spec_indicator(skip_evm, 0)] + data.subrange(31 * i, 31 * i + 31)
    } else {
        seq![spec_indicator(skip_evm, (n % 31) as u8)] + data.subrange(31 * i, n) + zero_bytes(
            (31 * i + 31 - n) as nat,
        )
    }
}

/// The segmentation of `data`: the wire bytes of each of its chunks in order.
pub open spec fn spec_segment(data: Seq<u8>, skip_evm: bool) -> Seq<Seq<u8>> {
    Seq::new(chunk_count(data.len()), |i: int| spec_chunk_at(data, skip_evm, i))
}

/// The wire bytes of each chunk of a sequence, in order.
pub open spec fn views_of(chunks: Seq<Chunk>) -> Seq<Seq<u8>> {
    chunks.map_values(|c: Chunk| c@)
}

/// The blob bytes a single 32-byte chunk contributes on reassembly: all 31
/// payload bytes when the declared length (the indicator's low five bits) is
/// `0`, and only the first `declared length` bytes otherwise.
pub open spec fn chunk_payload(c: Seq<u8>) -> Seq<u8>
    recommends
        c.len() == 32,
{
    let len = (c[0] % 32) as int;
    if len == 0 {
        c.subrange(1, 32)
    } else {
        c.subrange(1, 1 + len)
    }
}

/// The blob reassembled from a sequence of chunk wire bytes: the
/// concatenation of every chunk's payload contribution, in order.
pub open spec fn spec_reassemble(chunks: Seq<Seq<u8>>) -> Seq<u8>
    decreases chunks.len(),
{
    if chunks.len() == 0 {
        Seq::empty()
    } else {
        spec_reassemble(chunks.drop_last()) + chunk_payload(chunks.last())
    }
}

/// Bounds tying a blob length to its chunk count: the last chunk starts
/// before the end of the blob and the chunks cover it.
pub proof fn lemma_chunk_count(n: nat)
    ensures
        n % 31 == 0 ==> chunk_count(n) == n / 31,
        n % 31 != 0 ==> chunk_count(n) == n / 31 + 1,
        31 * chunk_count(n) >= n,
        n >= 1 ==> 31 * (chunk_count(n) - 1) < n,
        n >= 1 ==> chunk_count(n) >= 1,
        n % 31 != 0 ==> n == 31 * (chunk_count(n) - 1) + n % 31,
        n >= 1 && n % 31 == 0 ==> n == 31 * chunk_count(n),
{
    lemma_fundamental_div_mod(n as int, 31);
    if n % 31 == 0 {
        lemma_fundamental_div_mod_converse(n as int + 30, 31, n as int / 31, 30);
    } else {
        lemma_fundamental_div_mod_converse(
            n as int + 30,
            31,
            n as int / 31 + 1,
            (n as int % 31) - 1,
        );
    }
}

/// Reassembling the first `k` non-terminal chunks of a segmentation yields
/// the first `31 * k` bytes of the blob.
proof fn lemma_reassemble_prefix(b: Seq<u8>, skip_evm: bool, k: int)
    requires
        1 <= b.len(),
        0 <= k <= chunk_count(b.len()) - 1,
    ensures
        spec_reassemble(spec_segment(b, skip_evm).subrange(0, k)) == b.subrange(0, 31 * k),
    decreases k,
{
    lemma_chunk_count(b.len());
    let s = spec_segment(b, skip_evm);
    if k == 0 {
        assert(s.subrange(0, 0) =~= Seq::<Seq<u8>>::empty());
        assert(b.subrange(0, 0) =~= Seq::<u8>::empty());
    } else {
        lemma_reassemble_prefix(b, skip_evm, k - 1);
        let c = s[k - 1];
        assert(s.subrange(0, k).drop_last() =~= s.subrange(0, k - 1));
        assert(s.subrange(0, k).last() == c);
        crate::chunk::lemma_indicator_fields(skip_evm, 0);
        assert(chunk_payload(c) =~= b.subrange(31 * (k - 1), 31 * k));
        assert(b.subrange(0, 31 * (k - 1)) + b.subrange(31 * (k - 1), 31 * k) =~= b.subrange(
            0,
            31 * k,
        ));
    }
}

/// Round trip: segmenting any nonempty blob and reassembling the chunks
/// yields the blob back, for either value of the skip-EVM flag.
pub proof fn lemma_round_trip(b: Seq<u8>, skip_evm: bool)
    requires
        1 <= b.len(),
    ensures
        spec_reassemble(spec_segment(b, skip_evm)) == b,
{
    lemma_chunk_count(b.len());
    let n = b.len() as int;
    let cnt = chunk_count(b.len()) as int;
    let s = spec_segment(b, skip_evm);
    lemma_reassemble_prefix(b, skip_evm, cnt - 1);
    let c = s[cnt - 1];
    assert(s.drop_last() =~= s.subrange(0, cnt - 1));
    let r = (n % 31) as u8;
    crate::chunk::lemma_indicator_fields(skip_evm, r);
    assert(c[0] == spec_indicator(skip_evm, r));
    assert(chunk_payload(c) =~= b.subrange(31 * (cnt - 1), n));
    assert(b.subrange(0, 31 * (cnt - 1)) + b.subrange(31 * (cnt - 1), n) =~= b);
}

/// Indicator correctness: in any segmentation of a nonempty blob, every
/// non-terminal chunk declares length `0` in its indicator's low five bits,
/// the terminal chunk declares the blob length modulo 31, and every chunk's
/// top indicator bit equals the skip-EVM flag.
pub proof fn lemma_indicator_correctness(b: Seq<u8>, skip_evm: bool)
    requires
        1 <= b.len(),
    ensures
        forall|i: int|
            0 <= i < chunk_count(b.len()) - 1 ==> (#[trigger] spec_segment(b, skip_evm)[i])[0]
                & 0x1f == 0,
        spec_segment(b, skip_evm).last()[0] & 0x1f == (b.len() % 31) as u8,
        forall|i: int|
            0 <= i < chunk_count(b.len()) ==> ((#[trigger] spec_segment(b, skip_evm)[i])[0] & 0x80
                == 0x80) == skip_evm,
{
    lemma_chunk_count(b.len());
    let cnt = chunk_count(b.len()) as int;
    let s = spec_segment(b, skip_evm);
    let r = (b.len() as int % 31) as u8;
    crate::chunk::lemma_indicator_fields(skip_evm, 0);
    crate::chunk::lemma_indicator_fields(skip_evm, r);
    assert forall|i: int| 0 <= i < cnt - 1 implies (#[trigger] s[i])[0] & 0x1f == 0 by {
        assert(s[i][0] == spec_indicator(skip_evm, 0));
    }
    assert(s.last()[0] == spec_indicator(skip_evm, r));
    assert forall|i: int| 0 <= i < cnt implies ((#[trigger] s[i])[0] & 0x80 == 0x80) == skip_evm by {
        if i < cnt - 1 {
            assert(s[i][0] == spec_indicator(skip_evm, 0));
        } else {
            assert(s[i][0] == spec_indicator(skip_evm, r));
        }
    }
}

impl Blob {
    pub fn new(data: Vec<u8>) -> (b: Blob)
        ensures
            b@ == data@,
    {
        Blob { data }
    }

    /// The blob's bytes.
    pub fn data(&self) -> (r: &Vec<u8>)
        ensures
            r@ == self@,
    {
        &self.data
    }

    /// Segment this blob into chunks: `chunk_count` chunks that tile the
    /// blob's bytes in order, each with the skip-EVM flag in its indicator's
    /// top bit, the last one terminal.
    pub fn to_chunks(self, skip_evm: bool) -> (chunks: Vec<Chunk>)
        ensures
            chunks@.len() == chunk_count(self@.len()),
            views_of(chunks@) == spec_segment(self@, skip_evm),
    {
        proof {
            lemma_chunk_count(self@.len());
        }
        let n = self.data.len();
        let chunks_per_blob = if n % 31 == 0 {
            n / 31
        } else {
            n / 31 + 1
        };
        let terminal_len: u8 = (n % 31) as u8;
        let mut chunks: Vec<Chunk> = Vec::new();
        let mut i: usize = 0;
        while i < chunks_per_blob
            invariant
                n == self@.len(),
                chunks_per_blob == chunk_count(n as nat),
                31 * (chunks_per_blob - 1) < n <= 31 * chunks_per_blob,
                terminal_len == n as int % 31,
                i <= chunks_per_blob,
                chunks@.len() == i,
                forall|j: int|
                    0 <= j < i ==> #[trigger] chunks@[j]@ == spec_chunk_at(self@, skip_evm, j),
            decreases chunks_per_blob - i,
        {
            assert(31 * i <= 31 * (chunks_per_blob - 1)) by (nonlinear_arith)
                requires
                    i <= chunks_per_blob - 1,
            ;
            let i_data_start: usize = i * 31;
            let mut chunk_data: [u8; 31] = [0;31];
            let mut indicator: u8 = 0;
            if i != chunks_per_blob - 1 {
                assert(31 * (i + 1) <= 31 * (chunks_per_blob - 1)) by (nonlinear_arith)
                    requires
                        i + 1 <= chunks_per_blob - 1,
                ;
                let mut j: usize = 0;
                while j < 31
                    invariant
                        j <= 31,
                        i_data_start + 31 <= n,
                        n == self@.len(),
                        forall|k: int|
                            0 <= k < j ==> #[trigger] chunk_data@[k] == self@[i_data_start + k],
                    decreases 31 - j,
                {
                    chunk_data[j] = self.data[i_data_start + j];
                    j = j + 1;
                }
            } else {
                indicator = terminal_len;
                let mut j: usize = i_data_start;
                while j < n
                    invariant
                        i_data_start <= j <= n,
                        n <= i_data_start + 31,
                        n == self@.len(),
                        forall|k: int|
                            0 <= k < j - i_data_start ==> #[trigger] chunk_data@[k] == self@[i_data_start + k],
                        forall|k: int| j - i_data_start <= k < 31 ==> #[trigger] chunk_data@[k] == 0,
                    decreases n - j,
                {
                    chunk_data[j - i_data_start] = self.data[j];
                    j = j + 1;
                }
            }
            if skip_evm {
                indicator = indicator + 128;
            }
            let ch = Chunk::new(indicator, chunk_data);
            proof {
                assert(ch@ =~= spec_chunk_at(self@, skip_evm, i as int));
            }
            chunks.push(ch);
            i = i + 1;
        }
        proof {
            assert(views_of(chunks@) =~= spec_segment(self@, skip_evm));
        }
        chunks
    }

    /// Segment this blob after checking it against the configured maximum
    /// blob size: a blob too large for one collation is rejected rather
    /// than silently spanned over several.
    pub fn to_chunks_checked(self, skip_evm: bool, vars: &crate::body::CollationVariables) -> (r:
        Result<Vec<Chunk>, crate::body::CodecError>)
        ensures
            match r {
                Ok(chunks) => self@.len() <= vars.spec_capacity() * 31 && views_of(chunks@)
                    == spec_segment(self@, skip_evm),
                Err(e) => self@.len() > vars.spec_capacity() * 31 && e
                    == crate::body::CodecError::InvalidInput,
            },
    {
        if self.data.len() > vars.max_blob_size() {
            Err(crate::body::CodecError::InvalidInput)
        } else {
            Ok(self.to_chunks(skip_evm))
        }
    }

    /// Reassemble a blob from a sequence of chunks: each chunk in order
    /// contributes all 31 payload bytes when its declared length is `0` and
    /// its first `declared length` bytes otherwise.
    pub fn from_chunks(chunks: Vec<Chunk>) -> (b: Blob)
        ensures
            b@ == spec_reassemble(views_of(chunks@)),
    {
        let mut data: Vec<u8> = Vec::new();
        let mut idx: usize = 0;
        while idx < chunks.len()
            invariant
                idx <= chunks@.len(),
                data@ == spec_reassemble(views_of(chunks@).subrange(0, idx as int)),
            decreases chunks@.len() - idx,
        {
            let ch = chunks[idx];
            let len = ch.indicator % 32;
            let ghost prefix = data@;
            let take: usize = if len == 0 {
                31
            } else {
                len as usize
            };
            let mut i: usize = 0;
            while i < take
                invariant
                    i <= take <= 31,
                    data@ == prefix + ch.data@.subrange(0, i as int),
                decreases take - i,
            {
                proof {
                    assert(data@.push(ch.data@[i as int]) =~= prefix + ch.data@.subrange(
                        0,
                        i + 1,
                    ));
                }
                data.push(ch.data[i]);
                i = i + 1;
            }
            proof {
                let cviews = views_of(chunks@);
                assert(ch@[0] == ch.indicator);
                assert(data@ =~= prefix + chunk_payload(ch@));
                assert(cviews.subrange(0, idx + 1).drop_last() =~= cviews.subrange(0, idx as int));
                assert(cviews.subrange(0, idx + 1).last() == ch@);
            }
            idx = idx + 1;
        }
        proof {
            assert(views_of(chunks@).subrange(0, chunks@.len() as int) =~= views_of(chunks@));
        }
        Blob { data }
    }
}

} // verus!
