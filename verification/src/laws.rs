//! What holds of encoding and decoding together.

use vstd::prelude::*;
use crate::format::{
    as_byte, base, code_mantissa, code_negative, code_segment, decode_spec, encode_spec, invert,
    level, magnitude, mantissa, pack, segment, step, INVERSION,
};

verus! {

/// Exclusive-or with a fixed pattern undoes itself.
proof fn lemma_invert_twice_bits(byte: u8)
    by (bit_vector)
    ensures
        (byte ^ INVERSION) ^ INVERSION == byte,
{
}

/// The midpoint of the interval that holds a magnitude is at most half a
/// step away from it.
proof fn lemma_midpoint_bits(m: u16)
    by (bit_vector)
    requires
        m <= 4095,
    ensures
        -step(segment(m as int)) < 2 * (level(segment(m as int), mantissa(m as int)) - m) <= step(
            segment(m as int),
        ),
{
}

/// The quotient of a magnitude by its step numbers its interval.
proof fn lemma_interval_bits(m: u16)
    by (bit_vector)
    requires
        m <= 4095,
    ensures
        (m as int) / step(segment(m as int)) == base(segment(m as int)) + mantissa(m as int),
        (base(segment(m as int)) + mantissa(m as int)) * step(segment(m as int)) <= m,
        m < (base(segment(m as int)) + mantissa(m as int) + 1) * step(segment(m as int)),
{
}

/// A midpoint falls into the segment and interval it was made from.
proof fn lemma_requantise_bits(s: u8, q: u8)
    by (bit_vector)
    requires
        s <= 7,
        q <= 15,
    ensures
        1 <= level(s as int, q as int) <= 4032,
        segment(level(s as int, q as int)) == s,
        mantissa(level(s as int, q as int)) == q,
{
}

/// Inverting the even bits of a byte twice gives the byte back.
pub proof fn lemma_invert_twice(byte: int)
    requires
        0 <= byte <= 255,
    ensures
        0 <= invert(byte) <= 255,
        invert(invert(byte)) == byte,
{
    lemma_invert_twice_bits(byte as u8);
}

/// A magnitude lies in the quantisation interval that its segment and
/// mantissa name: the mantissa counts the intervals from the segment's first.
pub proof fn lemma_interval(magnitude: int)
    requires
        0 <= magnitude <= 4095,
    ensures
        0 <= segment(magnitude) <= 7,
        0 <= mantissa(magnitude) <= 15,
        magnitude / step(segment(magnitude)) == base(segment(magnitude)) + mantissa(magnitude),
        (base(segment(magnitude)) + mantissa(magnitude)) * step(segment(magnitude)) <= magnitude,
        magnitude < (base(segment(magnitude)) + mantissa(magnitude) + 1) * step(
            segment(magnitude),
        ),
{
    lemma_interval_bits(magnitude as u16);
}

/// The midpoint of a quantisation interval lies in that interval: quantised
/// again it gives the segment and mantissa it was made from. It is never zero
/// and never above 4032.
pub proof fn lemma_level_requantised(segment: int, mantissa: int)
    requires
        0 <= segment <= 7,
        0 <= mantissa <= 15,
    ensures
        1 <= level(segment, mantissa) <= 4032,
        crate::format::segment(level(segment, mantissa)) == segment,
        crate::format::mantissa(level(segment, mantissa)) == mantissa,
{
    lemma_requantise_bits(segment as u8, mantissa as u8);
}

/// The code word of every 16-bit sample fits in eight bits, and carries the
/// sample's sign with the segment and mantissa of its magnitude.
pub proof fn lemma_encoded_fields(sample: int)
    requires
        i16::MIN <= sample <= i16::MAX,
    ensures
        -128 <= encode_spec(sample) <= 127,
        code_negative(encode_spec(sample)) == (sample < 0),
        code_segment(encode_spec(sample)) == segment(magnitude(sample)),
        code_mantissa(encode_spec(sample)) == mantissa(magnitude(sample)),
{
    let m = magnitude(sample);
    lemma_invert_twice(pack(sample < 0, segment(m), mantissa(m)));
}

/// Every 8-bit code word stands for a sample that fits in sixteen bits: its
/// magnitude is at least 1 and at most 4032.
pub proof fn lemma_decoded_range(code: int)
    requires
        i8::MIN <= code <= i8::MAX,
    ensures
        i16::MIN <= decode_spec(code) <= i16::MAX,
        code_negative(code) ==> -4032 <= decode_spec(code) <= -1,
        !code_negative(code) ==> 1 <= decode_spec(code) <= 4032,
{
    lemma_invert_twice(as_byte(code));
    lemma_level_requantised(code_segment(code), code_mantissa(code));
}

/// A round trip keeps the sign: a positive sample comes back positive, a
/// negative one negative. Zero comes back as 1, the midpoint of the lowest
/// interval.
pub proof fn lemma_sign_preserved(sample: int)
    requires
        i16::MIN <= sample <= i16::MAX,
    ensures
        sample > 0 ==> decode_spec(encode_spec(sample)) > 0,
        sample < 0 ==> decode_spec(encode_spec(sample)) < 0,
        sample == 0 ==> decode_spec(encode_spec(sample)) == 1,
{
    lemma_encoded_fields(sample);
    lemma_decoded_range(encode_spec(sample));
}

/// Within the twelve-bit range a round trip moves a sample by at most half
/// the step of its segment: by at most 1 below 64, by at most 64 anywhere.
pub proof fn lemma_error_bounded(sample: int)
    requires
        -4095 <= sample <= 4095,
    ensures
        -step(segment(magnitude(sample))) <= 2 * (decode_spec(encode_spec(sample)) - sample)
            <= step(segment(magnitude(sample))),
        -64 <= decode_spec(encode_spec(sample)) - sample <= 64,
        -64 < sample < 64 ==> -1 <= decode_spec(encode_spec(sample)) - sample <= 1,
{
    lemma_encoded_fields(sample);
    lemma_midpoint_bits(magnitude(sample) as u16);
}

/// A sample beyond the twelve-bit range is coded as the largest magnitude of
/// its sign. This holds of the most negative sample too, whose magnitude does
/// not fit in sixteen bits.
pub proof fn lemma_clamped(sample: int)
    requires
        i16::MIN <= sample <= i16::MAX,
    ensures
        sample > 4095 ==> encode_spec(sample) == encode_spec(4095),
        sample < -4095 ==> encode_spec(sample) == encode_spec(-4095),
{
}

/// Decoding loses nothing that the code holds: the sample that a code word
/// stands for is encoded as that same code word.
pub proof fn lemma_decode_then_encode(code: int)
    requires
        i8::MIN <= code <= i8::MAX,
    ensures
        encode_spec(decode_spec(code)) == code,
{
    lemma_invert_twice(as_byte(code));
    lemma_level_requantised(code_segment(code), code_mantissa(code));
}

/// Encoding the sample that a code word stands for gives a code word of the
/// same sign and segment.
pub proof fn lemma_reencoded_sign_and_segment(code: int)
    requires
        i8::MIN <= code <= i8::MAX,
    ensures
        code_negative(encode_spec(decode_spec(code))) == code_negative(code),
        code_segment(encode_spec(decode_spec(code))) == code_segment(code),
{
    lemma_decode_then_encode(code);
}

/// A second round trip changes nothing: what a sample comes back as is
/// encoded as the sample was, and so comes back as itself.
pub proof fn lemma_round_trip_stable(sample: int)
    requires
        i16::MIN <= sample <= i16::MAX,
    ensures
        encode_spec(decode_spec(encode_spec(sample))) == encode_spec(sample),
        decode_spec(encode_spec(decode_spec(encode_spec(sample)))) == decode_spec(
            encode_spec(sample),
        ),
{
    lemma_encoded_fields(sample);
    lemma_decode_then_encode(encode_spec(sample));
}

} // verus!
