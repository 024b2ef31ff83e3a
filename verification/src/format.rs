//! The A-law code word and the quantiser behind it, as plain arithmetic.
//!
//! A code word carries one sign bit, three segment bits and four mantissa
//! bits. On the wire every even bit is inverted.

use vstd::prelude::*;

verus! {

/// Largest magnitude that the twelve magnitude bits of the format can carry.
pub const MAGNITUDE_MAX: i16 = 0x0FFF;

/// The bits that are inverted on the wire: every even one.
pub const INVERSION: u8 = 0x55;

/// The sign flag of a code word before inversion.
pub const SIGN_BIT: u8 = 0x80;

/// The magnitude that the encoder quantises: the absolute value of the
/// sample, capped at 4095.
pub open spec fn magnitude(sample: int) -> int {
    let size = if sample < 0 {
        -sample
    } else {
        sample
    };
    if size > MAGNITUDE_MAX {
        MAGNITUDE_MAX as int
    } else {
        size
    }
}

/// The segment, 0 to 7, into which a magnitude of at most 4095 falls.
///
/// Segment 0 holds the magnitudes below 32; segment `s > 0` holds those
/// whose highest set bit is bit `s + 4`.
pub open spec fn segment(magnitude: int) -> int {
    if magnitude < 32 {
        0
    } else if magnitude < 64 {
        1
    } else if magnitude < 128 {
        2
    } else if magnitude < 256 {
        3
    } else if magnitude < 512 {
        4
    } else if magnitude < 1024 {
        5
    } else if magnitude < 2048 {
        6
    } else {
        7
    }
}

/// The width of one quantisation interval in a segment: 2 in the two lowest
/// segments, doubling with each segment above them.
pub open spec fn step(segment: int) -> int {
    if segment <= 1 {
        2
    } else if segment == 2 {
        4
    } else if segment == 3 {
        8
    } else if segment == 4 {
        16
    } else if segment == 5 {
        32
    } else if segment == 6 {
        64
    } else {
        128
    }
}

/// The number of quantisation intervals that lie below a segment's first,
/// counted in that segment's own step.
pub open spec fn base(segment: int) -> int {
    if segment <= 0 {
        0
    } else {
        16
    }
}

/// The four mantissa bits of a magnitude: the index, 0 to 15, of its
/// quantisation interval within its segment.
pub open spec fn mantissa(magnitude: int) -> int {
    (magnitude / step(segment(magnitude))) % 16
}

/// The code word before inversion, as a number from 0 to 255: the sign in
/// bit 7, the segment in bits 4 to 6, the mantissa in bits 0 to 3.
pub open spec fn pack(negative: bool, segment: int, mantissa: int) -> int {
    (if negative { 128int } else { 0int }) + 16 * segment + mantissa
}

/// A byte with its even bits inverted. Applying it twice gives the byte back.
pub open spec fn invert(byte: int) -> int {
    ((byte as u8) ^ INVERSION) as int
}

/// A byte, 0 to 255, read as a signed value in two's complement.
pub open spec fn as_signed(byte: int) -> int {
    if byte >= 128 {
        byte - 256
    } else {
        byte
    }
}

/// A signed code, -128 to 127, read as the byte with the same bits.
pub open spec fn as_byte(code: int) -> int {
    if code < 0 {
        code + 256
    } else {
        code
    }
}

/// The code word of a sample.
pub open spec fn encode_spec(sample: int) -> int {
    let m = magnitude(sample);
    as_signed(invert(pack(sample < 0, segment(m), mantissa(m))))
}

/// The code word of a code with the inversion undone: sign, segment and
/// mantissa in place.
pub open spec fn plain(code: int) -> int {
    invert(as_byte(code))
}

/// Whether a code stands for a negative sample.
pub open spec fn code_negative(code: int) -> bool {
    plain(code) >= 128
}

/// The segment, 0 to 7, that a code names.
pub open spec fn code_segment(code: int) -> int {
    (plain(code) % 128) / 16
}

/// The mantissa, 0 to 15, that a code carries.
pub open spec fn code_mantissa(code: int) -> int {
    plain(code) % 16
}

/// The magnitude that stands for a quantisation interval: its midpoint,
/// which in an interval of two magnitudes is the upper one.
pub open spec fn level(segment: int, mantissa: int) -> int {
    (base(segment) + mantissa) * step(segment) + step(segment) / 2
}

/// The sample that a code word stands for.
pub open spec fn decode_spec(code: int) -> int {
    let m = level(code_segment(code), code_mantissa(code));
    if code_negative(code) {
        -m
    } else {
        m
    }
}

} // verus!
