use greenwasm::decoding::integers::encode_f32;
use greenwasm::decoding::integers::encode_f64;
use greenwasm::decoding::integers::encode_s32;
use greenwasm::decoding::integers::encode_s64;
use greenwasm::decoding::integers::encode_u32;
use greenwasm::decoding::integers::encode_u64;
use greenwasm::decoding::integers::parse_f32;
use greenwasm::decoding::integers::parse_f64;
use greenwasm::decoding::integers::parse_i32;
use greenwasm::decoding::integers::parse_i64;
use greenwasm::decoding::integers::parse_s32;
use greenwasm::decoding::integers::parse_s64;
use greenwasm::decoding::integers::parse_u32;
use greenwasm::decoding::integers::parse_u64;
use greenwasm::decoding::outcome::parse_byte;
use greenwasm::decoding::outcome::parse_tag;
use greenwasm::decoding::outcome::DecodeError;
use greenwasm::structure::types::F32;
use greenwasm::structure::types::F64;

#[test]
fn byte_takes_one() {
    let input = [0xABu8, 0xCD];
    let (rest, b) = parse_byte(&input).unwrap();
    assert_eq!(b, 0xAB);
    assert_eq!(rest, &[0xCDu8][..]);
    assert_eq!(parse_byte(&[]), Err(DecodeError::MalformedFormat));
}

#[test]
fn tag_accepts_only_its_byte() {
    let input = [0x60u8, 0x01];
    let (rest, _) = parse_tag(&input, 0x60).unwrap();
    assert_eq!(rest, &[0x01u8][..]);
    assert_eq!(parse_tag(&input, 0x61), Err(DecodeError::MalformedFormat));
    assert_eq!(parse_tag(&[], 0x60), Err(DecodeError::MalformedFormat));
}

#[test]
fn u32_single_bytes() {
    assert_eq!(parse_u32(&[0x00]).unwrap().1, 0);
    assert_eq!(parse_u32(&[0x7F]).unwrap().1, 127);
    assert_eq!(parse_u32(&[0x80, 0x01]).unwrap().1, 128);
}

#[test]
fn u32_leaves_the_rest() {
    let input = [0x05u8, 0xAA, 0xBB];
    let (rest, v) = parse_u32(&input).unwrap();
    assert_eq!(v, 5);
    assert_eq!(rest, &[0xAAu8, 0xBB][..]);
}

#[test]
fn u32_largest() {
    let input = [0xFFu8, 0xFF, 0xFF, 0xFF, 0x0F];
    assert_eq!(parse_u32(&input).unwrap().1, u32::MAX);
}

#[test]
fn u32_last_byte_too_large() {
    let input = [0xFFu8, 0xFF, 0xFF, 0xFF, 0x10];
    assert_eq!(parse_u32(&input), Err(DecodeError::MalformedInteger));
    let input = [0xFFu8, 0xFF, 0xFF, 0xFF, 0x1F];
    assert_eq!(parse_u32(&input), Err(DecodeError::MalformedInteger));
}

#[test]
fn u32_too_many_bytes() {
    let input = [0x80u8, 0x80, 0x80, 0x80, 0x80, 0x00];
    assert_eq!(parse_u32(&input), Err(DecodeError::MalformedInteger));
}

#[test]
fn u32_input_ends_early() {
    assert_eq!(parse_u32(&[]), Err(DecodeError::MalformedFormat));
    assert_eq!(parse_u32(&[0x80]), Err(DecodeError::MalformedFormat));
    assert_eq!(parse_u32(&[0xE5, 0x8E]), Err(DecodeError::MalformedFormat));
}

#[test]
fn u32_longer_forms_are_accepted() {
    assert_eq!(parse_u32(&[0x80, 0x00]).unwrap().1, 0);
    assert_eq!(parse_u32(&[0x83, 0x80, 0x80, 0x80, 0x00]).unwrap().1, 3);
}

#[test]
fn u64_largest_and_overflow() {
    let input = [0xFFu8, 0xFF, 0xFF, 0xFF, 0xFF, 0xFF, 0xFF, 0xFF, 0xFF, 0x01];
    assert_eq!(parse_u64(&input).unwrap().1, u64::MAX);
    let input = [0xFFu8, 0xFF, 0xFF, 0xFF, 0xFF, 0xFF, 0xFF, 0xFF, 0xFF, 0x02];
    assert_eq!(parse_u64(&input), Err(DecodeError::MalformedInteger));
    let input = [0x80u8, 0x80, 0x80, 0x80, 0x80, 0x80, 0x80, 0x80, 0x80, 0x80, 0x00];
    assert_eq!(parse_u64(&input), Err(DecodeError::MalformedInteger));
}

#[test]
fn u64_beyond_32_bits() {
    let input = [0x80u8, 0x80, 0x80, 0x80, 0x10];
    assert_eq!(parse_u64(&input).unwrap().1, 1u64 << 32);
}

#[test]
fn s32_small_values() {
    assert_eq!(parse_s32(&[0x00]).unwrap().1, 0);
    assert_eq!(parse_s32(&[0x3F]).unwrap().1, 63);
    assert_eq!(parse_s32(&[0x40]).unwrap().1, -64);
    assert_eq!(parse_s32(&[0x7F]).unwrap().1, -1);
    assert_eq!(parse_s32(&[0xC0, 0x00]).unwrap().1, 64);
    assert_eq!(parse_s32(&[0xBF, 0x7F]).unwrap().1, -65);
}

#[test]
fn s32_extremes() {
    assert_eq!(parse_s32(&[0xFF, 0xFF, 0xFF, 0xFF, 0x07]).unwrap().1, i32::MAX);
    assert_eq!(parse_s32(&[0x80, 0x80, 0x80, 0x80, 0x78]).unwrap().1, i32::MIN);
}

#[test]
fn s32_last_byte_does_not_fit() {
    assert_eq!(
        parse_s32(&[0xFF, 0xFF, 0xFF, 0xFF, 0x08]),
        Err(DecodeError::MalformedInteger)
    );
    assert_eq!(
        parse_s32(&[0x80, 0x80, 0x80, 0x80, 0x77]),
        Err(DecodeError::MalformedInteger)
    );
    assert_eq!(
        parse_s32(&[0x80, 0x80, 0x80, 0x80, 0x80, 0x00]),
        Err(DecodeError::MalformedInteger)
    );
}

#[test]
fn s32_input_ends_early() {
    assert_eq!(parse_s32(&[]), Err(DecodeError::MalformedFormat));
    assert_eq!(parse_s32(&[0xC0, 0xBB]), Err(DecodeError::MalformedFormat));
}

#[test]
fn s64_extremes() {
    let input = [0xFFu8, 0xFF, 0xFF, 0xFF, 0xFF, 0xFF, 0xFF, 0xFF, 0xFF, 0x00];
    assert_eq!(parse_s64(&input).unwrap().1, i64::MAX);
    let input = [0x80u8, 0x80, 0x80, 0x80, 0x80, 0x80, 0x80, 0x80, 0x80, 0x7F];
    assert_eq!(parse_s64(&input).unwrap().1, i64::MIN);
    let input = [0x80u8, 0x80, 0x80, 0x80, 0x80, 0x80, 0x80, 0x80, 0x80, 0x01];
    assert_eq!(parse_s64(&input), Err(DecodeError::MalformedInteger));
    let input = [0x80u8, 0x80, 0x80, 0x80, 0x80, 0x80, 0x80, 0x80, 0x80, 0x7E];
    assert_eq!(parse_s64(&input), Err(DecodeError::MalformedInteger));
}

#[test]
fn i32_keeps_the_bit_pattern() {
    assert_eq!(parse_i32(&[0x7F]).unwrap().1, 0xFFFF_FFFF);
    assert_eq!(parse_i32(&[0x2A]).unwrap().1, 42);
    assert_eq!(parse_i32(&[0x80, 0x80, 0x80, 0x80, 0x78]).unwrap().1, 0x8000_0000);
    assert_eq!(parse_i32(&[0xC0, 0xBB, 0x78]).unwrap().1, (-123456i32) as u32);
}

#[test]
fn i64_keeps_the_bit_pattern() {
    assert_eq!(parse_i64(&[0x7F]).unwrap().1, u64::MAX);
    assert_eq!(parse_i64(&[0x2A]).unwrap().1, 42);
    let input = [0x80u8, 0x80, 0x80, 0x80, 0x80, 0x80, 0x80, 0x80, 0x80, 0x7F];
    assert_eq!(parse_i64(&input).unwrap().1, 0x8000_0000_0000_0000);
    assert_eq!(parse_i64(&[0x40]).unwrap().1, (-64i64) as u64);
}

#[test]
fn encode_unsigned_shortest() {
    assert_eq!(encode_u32(0), vec![0x00u8]);
    assert_eq!(encode_u32(127), vec![0x7Fu8]);
    assert_eq!(encode_u32(128), vec![0x80u8, 0x01]);
    assert_eq!(encode_u32(u32::MAX), vec![0xFFu8, 0xFF, 0xFF, 0xFF, 0x0F]);
    assert_eq!(
        encode_u64(u64::MAX),
        vec![0xFFu8, 0xFF, 0xFF, 0xFF, 0xFF, 0xFF, 0xFF, 0xFF, 0xFF, 0x01]
    );
}

#[test]
fn encode_signed_shortest() {
    assert_eq!(encode_s32(0), vec![0x00u8]);
    assert_eq!(encode_s32(-1), vec![0x7Fu8]);
    assert_eq!(encode_s32(63), vec![0x3Fu8]);
    assert_eq!(encode_s32(64), vec![0xC0u8, 0x00]);
    assert_eq!(encode_s32(-64), vec![0x40u8]);
    assert_eq!(encode_s32(-65), vec![0xBFu8, 0x7F]);
    assert_eq!(encode_s32(-123456), vec![0xC0u8, 0xBB, 0x78]);
    assert_eq!(encode_s32(i32::MAX), vec![0xFFu8, 0xFF, 0xFF, 0xFF, 0x07]);
    assert_eq!(encode_s32(i32::MIN), vec![0x80u8, 0x80, 0x80, 0x80, 0x78]);
    assert_eq!(
        encode_s64(i64::MIN),
        vec![0x80u8, 0x80, 0x80, 0x80, 0x80, 0x80, 0x80, 0x80, 0x80, 0x7F]
    );
    assert_eq!(
        encode_s64(i64::MAX),
        vec![0xFFu8, 0xFF, 0xFF, 0xFF, 0xFF, 0xFF, 0xFF, 0xFF, 0xFF, 0x00]
    );
}

#[test]
fn unsigned_round_trip() {
    let samples: [u64; 12] = [
        0,
        1,
        127,
        128,
        255,
        16383,
        16384,
        624485,
        u32::MAX as u64,
        (u32::MAX as u64) + 1,
        u64::MAX - 1,
        u64::MAX,
    ];
    for v in samples {
        let mut bytes = encode_u64(v);
        bytes.push(0xEE);
        let (rest, back) = parse_u64(&bytes).unwrap();
        assert_eq!(back, v);
        assert_eq!(rest, &[0xEEu8][..]);
        if v <= u32::MAX as u64 {
            let bytes = encode_u32(v as u32);
            let (rest, back) = parse_u32(&bytes).unwrap();
            assert_eq!(back as u64, v);
            assert!(rest.is_empty());
        }
    }
}

#[test]
fn signed_round_trip() {
    let samples: [i64; 15] = [
        0,
        1,
        -1,
        63,
        64,
        -64,
        -65,
        8191,
        8192,
        -8192,
        -8193,
        i32::MAX as i64,
        i32::MIN as i64,
        i64::MAX,
        i64::MIN,
    ];
    for v in samples {
        let mut bytes = encode_s64(v);
        bytes.push(0xEE);
        let (rest, back) = parse_s64(&bytes).unwrap();
        assert_eq!(back, v);
        assert_eq!(rest, &[0xEEu8][..]);
        if i32::MIN as i64 <= v && v <= i32::MAX as i64 {
            let bytes = encode_s32(v as i32);
            let (rest, back) = parse_s32(&bytes).unwrap();
            assert_eq!(back as i64, v);
            assert!(rest.is_empty());
        }
    }
}

#[test]
fn f32_little_endian() {
    let input = [0x00u8, 0x00, 0x80, 0x3F, 0x99];
    let (rest, z) = parse_f32(&input).unwrap();
    assert_eq!(z.to_bits(), 0x3F80_0000);
    assert_eq!(f32::from_bits(z.to_bits()), 1.0f32);
    assert_eq!(rest, &[0x99u8][..]);
    assert_eq!(parse_f32(&[0x00, 0x00, 0x80]), Err(DecodeError::MalformedFormat));
}

#[test]
fn f64_little_endian() {
    let input = [0x00u8, 0x00, 0x00, 0x00, 0x00, 0x00, 0xF0, 0x3F];
    let (rest, z) = parse_f64(&input).unwrap();
    assert_eq!(z.to_bits(), 0x3FF0_0000_0000_0000);
    assert_eq!(f64::from_bits(z.to_bits()), 1.0f64);
    assert!(rest.is_empty());
    assert_eq!(
        parse_f64(&[0x00, 0x00, 0x00, 0x00, 0x00, 0x00, 0xF0]),
        Err(DecodeError::MalformedFormat)
    );
}

#[test]
fn float_round_trip_keeps_nan_payloads() {
    let patterns32: [u32; 7] =
        [0, 0x8000_0000, 0x3F80_0000, 0x7F80_0000, 0x7FC0_0001, 0xFFFF_FFFF, 0x0102_0304];
    for bits in patterns32 {
        let bytes = encode_f32(F32::from_bits(bits));
        assert_eq!(bytes, bits.to_le_bytes().to_vec());
        let (rest, z) = parse_f32(&bytes).unwrap();
        assert_eq!(z.to_bits(), bits);
        assert!(rest.is_empty());
    }
    let patterns64: [u64; 6] = [
        0,
        0x8000_0000_0000_0000,
        0x3FF0_0000_0000_0000,
        0x7FF8_0000_0000_0001,
        u64::MAX,
        0x0102_0304_0506_0708,
    ];
    for bits in patterns64 {
        let bytes = encode_f64(F64::from_bits(bits));
        assert_eq!(bytes, bits.to_le_bytes().to_vec());
        let (rest, z) = parse_f64(&bytes).unwrap();
        assert_eq!(z.to_bits(), bits);
        assert!(rest.is_empty());
    }
}

#[test]
fn float_equality_is_ieee() {
    let patterns: [u32; 8] = [
        0,
        0x8000_0000,
        0x3F80_0000,
        0xBF80_0000,
        0x7F80_0000,
        0xFF80_0000,
        0x7FC0_0000,
        0x7F80_0001,
    ];
    for a in patterns {
        for b in patterns {
            assert_eq!(
                F32::from_bits(a) == F32::from_bits(b),
                f32::from_bits(a) == f32::from_bits(b)
            );
        }
    }
    let patterns: [u64; 6] = [
        0,
        0x8000_0000_0000_0000,
        0x3FF0_0000_0000_0000,
        0x7FF0_0000_0000_0000,
        0x7FF8_0000_0000_0000,
        0xFFF0_0000_0000_0001,
    ];
    for a in patterns {
        for b in patterns {
            assert_eq!(
                F64::from_bits(a) == F64::from_bits(b),
                f64::from_bits(a) == f64::from_bits(b)
            );
        }
    }
}

#[test]
fn u32_three_bytes() {
    let input = [0xE5u8, 0x8E, 0x26];
    let (rest, v) = parse_u32(&input).unwrap();
    assert_eq!(v, 624485);
    assert!(rest.is_empty());
    assert_eq!(encode_u32(624485), vec![0xE5u8, 0x8E, 0x26]);
}

#[test]
fn s32_negative() {
    let input = [0xC0u8, 0xBB, 0x78];
    let (rest, v) = parse_s32(&input).unwrap();
    assert_eq!(v, -123456);
    assert!(rest.is_empty());
}
