//! Expanding a code word into a linear sample.

use vstd::prelude::*;
use crate::format::{as_byte, decode_spec, level, INVERSION, SIGN_BIT};

verus! {

/// The byte that a signed code turns into when its bits are kept.
proof fn lemma_same_bits(code: i8)
    by (bit_vector)
    ensures
        (code as u8) == as_byte(code as int),
{
}

/// Masks and shifts on a code byte read its fields as division and remainder do.
proof fn lemma_field_bits(byte: u8)
    by (bit_vector)
    ensures
        (byte & 0x80) != 0 <==> byte >= 128,
        byte & 0x7F == byte % 128,
        (byte & 0x7F) & 0xF0 == byte & 0x70,
        (byte & 0x70) >> 4 == (byte % 128) / 16,
        (byte & 0x70) >> 4 <= 7,
        (byte & 0x7F) & 0x0F == byte % 16,
        byte & 0x0F == byte % 16,
{
}

/// Above the lowest segment, the leading bit, the mantissa and the half-step
/// bit together make the midpoint of the interval.
proof fn lemma_expand_bits(position: u8, mantissa: i16)
    by (bit_vector)
    requires
        5 <= position <= 11,
        0 <= mantissa <= 15,
    ensures
        (1i16 << position) | (mantissa << ((position - 4) as u8)) | (1i16 << ((position - 5) as u8))
            == level(position - 4, mantissa as int),
        0 < level(position - 4, mantissa as int) <= 4032,
{
}

/// In the lowest segment the mantissa and the half-step bit make the midpoint.
proof fn lemma_expand_lowest_bits(mantissa: i16)
    by (bit_vector)
    requires
        0 <= mantissa <= 15,
    ensures
        (mantissa << 1) | 1 == level(0, mantissa as int),
        0 < level(0, mantissa as int) <= 31,
{
}

/// Expands an A-law code word into the linear sample that it stands for.
///
/// Every code word stands for a sample: the midpoint of the interval of
/// magnitudes that share the code, under the code's sign.
pub fn decode(code: i8) -> (sample: i16)
    ensures
        sample as int == decode_spec(code as int),
{
    let bits: u8 = #[verifier::truncate] (code as u8);
    let mut byte: u8 = bits ^ INVERSION;
    let negative: bool = (byte & SIGN_BIT) != 0;
    proof {
        lemma_same_bits(code);
        lemma_field_bits(byte);
    }
    if negative {
        byte = byte & 0x7F;
    }
    let position: u8 = ((byte & 0xF0) >> 4) + 4;
    let mantissa: i16 = (byte & 0x0F) as i16;
    let magnitude: i16 = if position != 4 {
        proof {
            lemma_expand_bits(position, mantissa);
        }
        (1i16 << position) | (mantissa << (position - 4)) | (1i16 << (position - 5))
    } else {
        proof {
            lemma_expand_lowest_bits(mantissa);
        }
        ((byte as i16) << 1) | 1
    };
    // The magnitude is at most 4032, so its negation fits.
    if negative {
        -magnitude
    } else {
        magnitude
    }
}

} // verus!
