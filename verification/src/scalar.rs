//! Single-precision scalars as bit patterns.
//!
//! The blur's continuous parameters are IEEE-754 single-precision numbers.
//! They travel through this crate as their 32-bit patterns: the pattern is
//! what ends up in the uniform buffer, and equality of the numbers it stands
//! for can be decided on the bits alone.

use vstd::prelude::*;

verus! {

/// The bits of a pattern below its sign bit: exponent and fraction.
pub open spec fn magnitude(bits: u32) -> int {
    bits as int % 0x8000_0000
}

/// Whether a pattern stands for "not a number": all exponent bits set and a
/// fraction that is not zero.
pub open spec fn is_nan(bits: u32) -> bool {
    magnitude(bits) > 0x7F80_0000
}

/// Whether a pattern stands for zero, of either sign.
pub open spec fn is_zero(bits: u32) -> bool {
    magnitude(bits) == 0
}

/// Whether two patterns stand for numbers that compare equal: neither is
/// "not a number", and they are the same pattern or both zero.
pub open spec fn same_value(a: u32, b: u32) -> bool {
    &&& !is_nan(a)
    &&& !is_nan(b)
    &&& (a == b || (is_zero(a) && is_zero(b)))
}

/// The pattern of two to the power `exponent`; positive infinity once the
/// power no longer fits the format.
pub open spec fn power_of_two_bits(exponent: nat) -> u32 {
    if exponent <= 127 {
        ((127 + exponent) * 0x0080_0000) as u32
    } else {
        0x7F80_0000
    }
}

/// The four bytes of a pattern, least significant first.
pub open spec fn le_bytes(bits: u32) -> Seq<u8> {
    seq![
        (bits as int % 0x100) as u8,
        (bits as int / 0x100 % 0x100) as u8,
        (bits as int / 0x1_0000 % 0x100) as u8,
        (bits as int / 0x100_0000) as u8,
    ]
}

/// The four bytes of a pattern, most significant first.
pub open spec fn be_bytes(bits: u32) -> Seq<u8> {
    seq![
        (bits as int / 0x100_0000) as u8,
        (bits as int / 0x1_0000 % 0x100) as u8,
        (bits as int / 0x100 % 0x100) as u8,
        (bits as int % 0x100) as u8,
    ]
}

/// Whether `bytes` is the in-memory form of the pattern on some machine: its
/// four bytes in one of the two byte orders.
pub open spec fn is_native_encoding(bytes: Seq<u8>, bits: u32) -> bool {
    bytes == le_bytes(bits) || bytes == be_bytes(bits)
}

/// Whether the pattern stands for "not a number".
pub fn bits_are_nan(bits: u32) -> (nan: bool)
    ensures
        nan == is_nan(bits),
{
    bits % 0x8000_0000 > 0x7F80_0000
}

/// Whether the two patterns stand for numbers that compare equal.
pub fn bits_same_value(a: u32, b: u32) -> (same: bool)
    ensures
        same == same_value(a, b),
{
    if bits_are_nan(a) || bits_are_nan(b) {
        false
    } else {
        a == b || (a % 0x8000_0000 == 0 && b % 0x8000_0000 == 0)
    }
}

/// The pattern of two to the power `exponent`.
pub fn bits_of_power_of_two(exponent: u32) -> (bits: u32)
    ensures
        bits == power_of_two_bits(exponent as nat),
{
    if exponent <= 127 {
        (127 + exponent) * 0x0080_0000
    } else {
        0x7F80_0000
    }
}

/// The in-memory bytes of a pattern, as `bytemuck::cast_slice` reads them from
/// a one-element slice of `u32`. The cast reinterprets the four bytes of the
/// element in place, so the result is the pattern in the byte order of the
/// machine; which of the two orders is not claimed.
#[verifier::external_body]
pub(crate) fn scalar_bytes(bits: u32) -> (bytes: Vec<u8>)
    ensures
        is_native_encoding(bytes@, bits),
{
    bytemuck::cast_slice::<u32, u8>(&[bits]).to_vec()
}

/// Equality of values is symmetric, and transitive. It is not reflexive:
/// "not a number" equals nothing, itself included.
pub proof fn law_same_value_is_partial_equivalence(a: u32, b: u32, c: u32)
    ensures
        same_value(a, b) ==> same_value(b, a),
        same_value(a, b) && same_value(b, c) ==> same_value(a, c),
        same_value(a, a) <==> !is_nan(a),
{
}

} // verus!
