//! The fixed 32-byte chunk: one indicator byte followed by 31 payload bytes.
//!
//! The indicator byte carries two things: its most significant bit is the
//! skip-EVM flag, and its low five bits hold the number of significant payload
//! bytes of a terminal chunk (`0` marks a non-terminal chunk whose 31 payload
//! bytes are all significant).

use vstd::prelude::*;

verus! {

/// One 32-byte unit of a segmented blob: the indicator byte and 31 payload bytes.
#[derive(PartialEq, Eq, Debug, Clone, Copy)]
pub struct Chunk {
    pub indicator: u8,
    pub data: [u8; 31],
}

impl View for Chunk {
    type V = Seq<u8>;

    /// The wire layout: byte 0 is the indicator, bytes 1..32 the payload.
    open spec fn view(&self) -> Seq<u8> {
        seq![self.indicator] + self.data@
    }
}

/// The indicator byte for the given skip-EVM flag and terminal length:
/// the flag in bit 7, the length in the low five bits.
pub open spec fn spec_indicator(skip_evm: bool, terminal_len: u8) -> u8
    recommends
        terminal_len <= 31,
{
    ((if skip_evm {
        128int
    } else {
        0int
    }) + terminal_len) as u8
}

impl Chunk {
    pub fn new(indicator: u8, data: [u8; 31]) -> (c: Chunk)
        ensures
            c.indicator == indicator,
            c.data == data,
            c@ == seq![indicator] + data@,
    {
        Chunk { indicator, data }
    }

    /// Build an indicator byte from the skip-EVM flag, whether the chunk is
    /// terminal, and the count of significant payload bytes of a terminal
    /// chunk.  A non-terminal chunk always declares length `0`.
    pub fn build_indicator(skip_evm: bool, terminal: bool, terminal_len: u8) -> (r: u8)
        requires
            terminal_len <= 31,
            !terminal ==> terminal_len == 0,
        ensures
            r == spec_indicator(skip_evm, terminal_len),
    {
        let mut indicator: u8 = terminal_len;
        if skip_evm {
            indicator = indicator + 128;
        }
        indicator
    }

    /// The number of significant payload bytes this chunk declares: the low
    /// five bits of the indicator (`0` for a non-terminal chunk).
    pub fn declared_len(&self) -> (r: u8)
        ensures
            r == self.indicator % 32,
            r <= 31,
    {
        self.indicator % 32
    }

    /// Whether the indicator's skip-EVM bit (bit 7) is set.
    pub fn skip_evm(&self) -> (r: bool)
        ensures
            r == (self.indicator >= 128),
    {
        self.indicator >= 128
    }
}

/// The indicator's low five bits are exactly its value modulo 32, and its
/// top bit is set exactly when the byte is at least 128; the arithmetic
/// encoding used throughout therefore matches the bit-field reading.
pub proof fn lemma_indicator_fields(skip_evm: bool, terminal_len: u8)
    requires
        terminal_len <= 31,
    ensures
        spec_indicator(skip_evm, terminal_len) & 0x1f == terminal_len,
        (spec_indicator(skip_evm, terminal_len) & 0x80 == 0x80) == skip_evm,
        spec_indicator(skip_evm, terminal_len) % 32 == terminal_len,
{
    let b = spec_indicator(skip_evm, terminal_len);
    if skip_evm {
        assert((128 + terminal_len) as u8 & 0x1f == terminal_len && ((128 + terminal_len) as u8
            & 0x80 == 0x80) && (128 + terminal_len) as u8 % 32 == terminal_len)
            by (bit_vector)
            requires
                terminal_len <= 31,
        ;
    } else {
        assert(terminal_len & 0x1f == terminal_len && !(terminal_len & 0x80 == 0x80)
            && terminal_len % 32 == terminal_len)
            by (bit_vector)
            requires
                terminal_len <= 31,
        ;
    }
}

} // verus!
