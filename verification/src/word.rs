//! Instruction words as they lie in memory: two bytes, low byte first.

use byteorder::{ByteOrder, LittleEndian};
use vstd::prelude::*;

verus! {

/// The 16-bit number whose little-endian bytes are `low` and `high`.
pub open spec fn word_le(low: u8, high: u8) -> u16 {
    (low + 256 * high) as u16
}

/// `byteorder::LittleEndian::read_u16`, which reads the first two bytes of
/// `buf` as a little-endian number and panics on a shorter buffer. Trusted:
/// that the result is the first byte plus 256 times the second.
#[verifier::external_body]
pub(crate) fn read_u16_le(buf: &[u8]) -> (word: u16)
    requires
        buf@.len() >= 2,
    ensures
        word == word_le(buf@[0], buf@[1]),
{
    LittleEndian::read_u16(buf)
}

} // verus!
