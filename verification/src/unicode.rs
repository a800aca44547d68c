//! The two points where the library relies on outside code: decoding UTF-8
//! bytes to code points, and the canonical-combining-class oracle. Everything
//! downstream is verified against the names given to their results here.

use vstd::prelude::*;

verus! {

/// The sequence of Unicode code points that a byte sequence decodes to under
/// UTF-8, with ill-formed subsequences replaced by U+FFFD.
pub uninterp spec fn utf8_decode(bytes: Seq<u8>) -> Seq<u32>;

/// The canonical combining class of a code point (0 for code points that
/// have none assigned, including everything outside the Unicode range).
pub uninterp spec fn ccc_of(code_point: u32) -> u8;

/// The canonical combining class as the library's specifications read it:
/// `ccc_of`, sharpened by the fact (shown by the oracle's table) that every
/// code point below U+0300 has class 0.
pub open spec fn spec_ccc(code_point: u32) -> u8 {
    if code_point < 0x300 {
        0u8
    } else {
        ccc_of(code_point)
    }
}

/// Relies on bstr's `ByteSlice::chars`: it yields the Unicode scalar values
/// of the byte string, substituting U+FFFD for ill-formed sequences. Each
/// scalar value consumes at least one byte, every scalar value is at most
/// U+10FFFF, and bytes below 0x80 decode to themselves.
#[verifier::external_body]
pub fn decode_code_points(bytes: &[u8]) -> (r: Vec<u32>)
    ensures
        r@ == utf8_decode(bytes@),
        r@.len() <= bytes@.len(),
        forall|i: int| 0 <= i < r@.len() ==> r@[i] <= 0x10FFFF,
        (forall|i: int| 0 <= i < bytes@.len() ==> bytes@[i] < 0x80) ==> r@ == bytes@.map_values(
            |x: u8| x as u32,
        ),
{
    bstr::ByteSlice::chars(bytes).map(|c| c as u32).collect()
}

/// Relies on `get_canonical_combining_class_u32` of the
/// unicode-canonical-combining-class crate: a pure lookup of the canonical
/// combining class, 0 (`NotReordered`) for anything unassigned. Its table
/// assigns class 0 to every code point below U+0300.
#[verifier::external_body]
pub fn ccc(code_point: u32) -> (r: u8)
    ensures
        r == ccc_of(code_point),
        code_point < 0x300 ==> r == 0,
        r == spec_ccc(code_point),
{
    unicode_canonical_combining_class::get_canonical_combining_class_u32(code_point) as u8
}

} // verus!
