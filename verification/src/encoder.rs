//! Compressing a linear sample into a code word.

use vstd::prelude::*;
use crate::format::{
    as_signed, encode_spec, magnitude, mantissa, pack, segment, INVERSION, MAGNITUDE_MAX, SIGN_BIT,
};

verus! {

/// A clear bit at the position under test puts the magnitude one segment lower.
proof fn lemma_search_miss(bits: u16, mask: u16, position: u8)
    by (bit_vector)
    requires
        bits <= 0x0FFF,
        5 <= position <= 11,
        mask == 1u16 << position,
        (bits & mask) != mask,
        segment(bits as int) <= position - 4,
    ensures
        mask >> 1 == 1u16 << ((position - 1) as u8),
        segment(bits as int) <= position - 5,
{
}

/// A set bit at the position under test puts the magnitude in that segment or above.
proof fn lemma_search_hit(bits: u16, mask: u16, position: u8)
    by (bit_vector)
    requires
        4 <= position <= 11,
        mask == 1u16 << position,
        (bits & mask) == mask,
    ensures
        segment(bits as int) >= position - 4,
{
}

/// The four bits below the leading one are the mantissa; in the lowest
/// segment, where no leading bit is implied, they are bits 1 to 4.
proof fn lemma_mantissa_bits(bits: u16, position: u8)
    by (bit_vector)
    requires
        4 <= position <= 11,
        segment(bits as int) == position - 4,
    ensures
        position == 4 ==> (bits >> 1) & 0x0F == mantissa(bits as int),
        position != 4 ==> (bits >> ((position - 4) as u8)) & 0x0F == mantissa(bits as int),
        (bits >> 1) & 0x0F <= 15,
        (bits >> ((position - 4) as u8)) & 0x0F <= 15,
{
}

/// Sign, segment and mantissa share no bit, so joining them adds them up.
proof fn lemma_pack_bits(sign: u8, segment: u8, mantissa: u8)
    by (bit_vector)
    requires
        sign == 0 || sign == 0x80,
        segment <= 7,
        mantissa <= 15,
    ensures
        sign | (segment << 4) | mantissa == pack(sign != 0, segment as int, mantissa as int),
{
}

/// The signed value that a byte turns into when its bits are kept.
proof fn lemma_same_bits(byte: u8)
    by (bit_vector)
    ensures
        (byte as i8) == as_signed(byte as int),
{
}

/// Compresses a linear sample into its A-law code word.
///
/// Every sample has a code word: a sample beyond the twelve-bit range, the
/// most negative one included, is coded as the largest magnitude of its sign.
pub fn encode(sample: i16) -> (code: i8)
    ensures
        code as int == encode_spec(sample as int),
{
    let mut value: i16 = sample;
    let mut sign: u8 = 0;
    if value < 0 {
        // Cap before negating: the most negative sample has no negation in
        // sixteen bits.
        value = if value < -MAGNITUDE_MAX {
            MAGNITUDE_MAX
        } else {
            -value
        };
        sign = SIGN_BIT;
    }
    if value > MAGNITUDE_MAX {
        value = MAGNITUDE_MAX;
    }
    let bits: u16 = value as u16;
    let ghost m: int = magnitude(sample as int);
    // Look for the highest set bit among bits 11 down to 5.
    let mut mask: u16 = 0x0800;
    let mut position: u8 = 11;
    assert(mask == 1u16 << position) by (bit_vector)
        requires
            mask == 0x0800,
            position == 11,
    ;
    while (bits & mask) != mask && position >= 5
        invariant
            4 <= position <= 11,
            mask == 1u16 << position,
            bits as int == m,
            m <= 0x0FFF,
            segment(m) <= position - 4,
        decreases position,
    {
        proof {
            lemma_search_miss(bits, mask, position);
        }
        mask = mask >> 1;
        position = position - 1;
    }
    proof {
        if (bits & mask) == mask {
            lemma_search_hit(bits, mask, position);
        }
        lemma_mantissa_bits(bits, position);
    }
    let low: u8 = if position == 4 {
        ((bits >> 1) & 0x0F) as u8
    } else {
        ((bits >> (position - 4)) & 0x0F) as u8
    };
    proof {
        lemma_pack_bits(sign, (position - 4) as u8, low);
    }
    let byte: u8 = (sign | ((position - 4) << 4) | low) ^ INVERSION;
    proof {
        lemma_same_bits(byte);
    }
    #[verifier::truncate]
    (byte as i8)
}

} // verus!
