//! The byte encodings of the integers that an encoded parameter set is made of.

use parity_scale_codec::{Compact, Encode};
use vstd::bytes::{spec_u16_to_le_bytes, spec_u32_to_le_bytes, spec_u64_to_le_bytes};
use vstd::prelude::*;

verus! {

/// The compact encoding of a length: the shorter the smaller the number. The
/// two low bits of the first byte tell how many bytes follow.
pub open spec fn compact_u32(value: u32) -> Seq<u8> {
    if value <= 0x3f {
        seq![(value * 4) as u8]
    } else if value <= 0x3fff {
        spec_u16_to_le_bytes((value * 4 + 1) as u16)
    } else if value <= 0x3fff_ffff {
        spec_u32_to_le_bytes((value * 4 + 2) as u32)
    } else {
        seq![3u8] + spec_u32_to_le_bytes(value)
    }
}

/// Calls `Encode::encode` on a `u32`, which writes its four bytes, lowest first.
#[verifier::external_body]
pub(crate) fn encode_u32(value: u32) -> (bytes: Vec<u8>)
    ensures
        bytes@ == spec_u32_to_le_bytes(value),
{
    value.encode()
}

/// Calls `Encode::encode` on a `u64`, which writes its eight bytes, lowest first.
#[verifier::external_body]
pub(crate) fn encode_u64(value: u64) -> (bytes: Vec<u8>)
    ensures
        bytes@ == spec_u64_to_le_bytes(value),
{
    value.encode()
}

/// Calls `Encode::encode` on a `Compact<u32>`. Up to 63 it writes one byte,
/// the number shifted left by two; up to 16383 two bytes, lowest first, of the
/// shifted number plus 1; up to 2^30 - 1 four bytes of the shifted number plus
/// 2; above that the byte 3 and then the number's four bytes.
#[verifier::external_body]
pub(crate) fn encode_compact_u32(value: u32) -> (bytes: Vec<u8>)
    ensures
        bytes@ == compact_u32(value),
{
    Compact(value).encode()
}

} // verus!
