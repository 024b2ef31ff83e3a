use alaw::{decode, encode};

/// The width of the quantisation interval that holds a magnitude.
fn step_of(magnitude: i32) -> i32 {
    if magnitude < 64 {
        2
    } else {
        1 << (27 - (magnitude as u32).leading_zeros())
    }
}

/// The code word of a magnitude and sign, put together field by field.
fn code_by_fields(negative: bool, magnitude: i32) -> i8 {
    let segment: i32 = if magnitude < 32 { 0 } else { 27 - (magnitude as u32).leading_zeros() as i32 };
    let mantissa: i32 = (magnitude / step_of(magnitude)) % 16;
    let sign: i32 = if negative { 128 } else { 0 };
    (((sign + 16 * segment + mantissa) as u8) ^ 0x55) as i8
}

/// The sample of a code word, taken from its fields.
fn sample_by_fields(code: i8) -> i16 {
    let plain: i32 = ((code as u8) ^ 0x55) as i32;
    let segment: i32 = (plain % 128) / 16;
    let mantissa: i32 = plain % 16;
    let magnitude: i32 = if segment == 0 {
        2 * mantissa + 1
    } else {
        (2 * mantissa + 33) << (segment - 1)
    };
    if plain >= 128 {
        -magnitude as i16
    } else {
        magnitude as i16
    }
}

#[test]
fn encode_agrees_with_the_fields_of_every_sample() {
    for sample in i16::MIN..=i16::MAX {
        let magnitude: i32 = (sample as i32).abs().min(4095);
        assert_eq!(encode(sample), code_by_fields(sample < 0, magnitude), "sample {}", sample);
    }
}

#[test]
fn decode_agrees_with_the_fields_of_every_code() {
    for code in i8::MIN..=i8::MAX {
        assert_eq!(decode(code), sample_by_fields(code), "code {}", code);
    }
}

#[test]
fn every_code_decodes_within_range() {
    for code in i8::MIN..=i8::MAX {
        let sample: i16 = decode(code);
        let negative: bool = ((code as u8) ^ 0x55) & 0x80 != 0;
        if negative {
            assert!(-4032 <= sample && sample <= -1, "code {}", code);
        } else {
            assert!(1 <= sample && sample <= 4032, "code {}", code);
        }
    }
}

#[test]
fn round_trip_keeps_the_sign() {
    for sample in i16::MIN..=i16::MAX {
        let back: i16 = decode(encode(sample));
        if sample > 0 {
            assert!(back > 0, "sample {}", sample);
        } else if sample < 0 {
            assert!(back < 0, "sample {}", sample);
        } else {
            assert_eq!(back, 1);
        }
    }
}

#[test]
fn round_trip_error_is_within_half_a_step() {
    let mut worst: i32 = 0;
    for sample in -4095i16..=4095 {
        let error: i32 = (decode(encode(sample)) as i32 - sample as i32).abs();
        assert!(2 * error <= step_of((sample as i32).abs()), "sample {}", sample);
        if (sample as i32).abs() < 64 {
            assert!(error <= 1, "sample {}", sample);
        }
        worst = worst.max(error);
    }
    assert_eq!(worst, 64);
}

#[test]
fn samples_beyond_twelve_bits_are_clamped() {
    for sample in 4096i16..=i16::MAX {
        assert_eq!(encode(sample), encode(4095), "sample {}", sample);
    }
    for sample in i16::MIN..=-4096 {
        assert_eq!(encode(sample), encode(-4095), "sample {}", sample);
    }
    assert_eq!(encode(4095), 0x2A);
    assert_eq!(encode(-4095), -86);
}

#[test]
fn decode_then_encode_gives_the_code_back() {
    for code in i8::MIN..=i8::MAX {
        assert_eq!(encode(decode(code)), code, "code {}", code);
    }
}

#[test]
fn reencoding_keeps_sign_and_segment() {
    for code in i8::MIN..=i8::MAX {
        let before: u8 = (code as u8) ^ 0x55;
        let after: u8 = (encode(decode(code)) as u8) ^ 0x55;
        assert_eq!(after & 0x80, before & 0x80, "code {}", code);
        assert_eq!(after & 0x70, before & 0x70, "code {}", code);
    }
}

#[test]
fn a_second_round_trip_changes_nothing() {
    for sample in i16::MIN..=i16::MAX {
        let once: i16 = decode(encode(sample));
        assert_eq!(decode(encode(once)), once, "sample {}", sample);
    }
}

#[test]
fn every_code_is_reached() {
    let mut seen: [bool; 256] = [false; 256];
    for sample in i16::MIN..=i16::MAX {
        seen[(encode(sample) as u8) as usize] = true;
    }
    assert!(seen.iter().all(|s| *s));
}

#[test]
fn round_trip_is_monotonic_on_magnitudes() {
    let mut last: i16 = decode(encode(0));
    for sample in 1i16..=i16::MAX {
        let back: i16 = decode(encode(sample));
        assert!(back >= last, "sample {}", sample);
        last = back;
    }
}

#[test]
fn totals_over_the_whole_domain() {
    let mut decoded: i64 = 0;
    let mut magnitudes: i64 = 0;
    for code in i8::MIN..=i8::MAX {
        decoded += decode(code) as i64;
        magnitudes += (decode(code) as i64).abs();
    }
    assert_eq!(decoded, 0);
    assert_eq!(magnitudes, 195584);
    let mut encoded: i64 = 0;
    for sample in i16::MIN..=i16::MAX {
        encoded += encode(sample) as i64;
    }
    assert_eq!(encoded, -1438763);
}
