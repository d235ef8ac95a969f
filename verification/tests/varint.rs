use mqtt_codec::error::CodecError;
use mqtt_codec::types::{ParseVarByteError, VarByte};
use mqtt_codec::varint::{decode_variable_byte_int, encode_variable_byte_int, VARINT_MAX};

#[test]
fn encode_zero_is_one_zero_byte() {
    assert_eq!(encode_variable_byte_int(0), Ok(vec![0x00]));
}

#[test]
fn encode_lengths_at_the_size_boundaries() {
    assert_eq!(encode_variable_byte_int(127).unwrap().len(), 1);
    assert_eq!(encode_variable_byte_int(128).unwrap().len(), 2);
    assert_eq!(encode_variable_byte_int(16_383).unwrap().len(), 2);
    assert_eq!(encode_variable_byte_int(16_384).unwrap().len(), 3);
    assert_eq!(encode_variable_byte_int(2_097_151).unwrap().len(), 3);
    assert_eq!(encode_variable_byte_int(2_097_152).unwrap().len(), 4);
    assert_eq!(encode_variable_byte_int(268_435_455).unwrap().len(), 4);
}

#[test]
fn encode_bytes_at_the_size_boundaries() {
    assert_eq!(encode_variable_byte_int(127), Ok(vec![0x7F]));
    assert_eq!(encode_variable_byte_int(128), Ok(vec![0x80, 0x01]));
    assert_eq!(encode_variable_byte_int(16_383), Ok(vec![0xFF, 0x7F]));
    assert_eq!(encode_variable_byte_int(16_384), Ok(vec![0x80, 0x80, 0x01]));
    assert_eq!(encode_variable_byte_int(2_097_151), Ok(vec![0xFF, 0xFF, 0x7F]));
    assert_eq!(encode_variable_byte_int(2_097_152), Ok(vec![0x80, 0x80, 0x80, 0x01]));
    assert_eq!(encode_variable_byte_int(268_435_455), Ok(vec![0xFF, 0xFF, 0xFF, 0x7F]));
}

#[test]
fn encode_321_is_c1_02() {
    assert_eq!(encode_variable_byte_int(321), Ok(vec![0xC1, 0x02]));
}

#[test]
fn encode_above_the_maximum_is_a_range_error() {
    assert_eq!(VARINT_MAX, 268_435_455);
    assert_eq!(encode_variable_byte_int(268_435_456), Err(CodecError::RangeError));
    assert_eq!(encode_variable_byte_int(u32::MAX), Err(CodecError::RangeError));
}

#[test]
fn var_byte_above_the_maximum_is_refused() {
    assert_eq!(VarByte::from(268_435_456).err(), Some(ParseVarByteError));
    assert!(VarByte::from(268_435_455).is_ok());
}

#[test]
fn parse_var_byte_error_message() {
    assert_eq!(ParseVarByteError.message(), "could not parse into VarByte");
}

#[test]
fn no_encoding_ends_in_a_zero_byte_behind_another() {
    let samples = [
        0u32, 1, 127, 128, 129, 255, 256, 16_383, 16_384, 16_385, 65_535, 2_097_151, 2_097_152,
        2_097_153, 100_000_000, 268_435_454, 268_435_455,
    ];
    for v in samples {
        let bytes = encode_variable_byte_int(v).unwrap();
        let last = bytes[bytes.len() - 1];
        assert!(last < 128);
        assert!(bytes.len() == 1 || last != 0);
        for b in &bytes[..bytes.len() - 1] {
            assert!(*b >= 128);
        }
    }
}

#[test]
fn decode_undoes_encode_on_samples() {
    let samples = [
        0u32, 1, 127, 128, 129, 255, 256, 321, 16_383, 16_384, 16_385, 65_535, 1_234_567,
        2_097_151, 2_097_152, 2_097_153, 100_000_000, 268_435_454, 268_435_455,
    ];
    for v in samples {
        let bytes = encode_variable_byte_int(v).unwrap();
        assert_eq!(decode_variable_byte_int(&bytes), Ok((v, bytes.len())));
    }
}

#[test]
fn decode_undoes_encode_on_a_sweep() {
    let mut v: u32 = 0;
    while v <= 268_435_455 {
        let bytes = encode_variable_byte_int(v).unwrap();
        assert_eq!(decode_variable_byte_int(&bytes), Ok((v, bytes.len())));
        v += 104_729;
    }
}

#[test]
fn decode_leaves_the_bytes_behind_the_integer_alone() {
    assert_eq!(decode_variable_byte_int(&[0x80, 0x01, 0xFF, 0xFF]), Ok((128, 2)));
    assert_eq!(decode_variable_byte_int(&[0x00, 0x80]), Ok((0, 1)));
    assert_eq!(decode_variable_byte_int(&[0x01, 0x80]), Ok((1, 1)));
}

#[test]
fn decode_four_bytes() {
    assert_eq!(decode_variable_byte_int(&[0xFF, 0xFF, 0xFF, 0x7F]), Ok((268_435_455, 4)));
    assert_eq!(decode_variable_byte_int(&[0x80, 0x80, 0x80, 0x01]), Ok((2_097_152, 4)));
}

#[test]
fn decode_takes_a_longer_form_for_what_it_spells() {
    assert_eq!(decode_variable_byte_int(&[0x80, 0x00]), Ok((0, 2)));
    assert_eq!(decode_variable_byte_int(&[0x81, 0x80, 0x00]), Ok((1, 3)));
}

#[test]
fn decode_empty_input_is_truncated() {
    assert_eq!(decode_variable_byte_int(&[]), Err(CodecError::TruncatedInput));
}

#[test]
fn decode_input_that_ends_with_the_continuation_bit_set_is_truncated() {
    assert_eq!(decode_variable_byte_int(&[0x80]), Err(CodecError::TruncatedInput));
    assert_eq!(decode_variable_byte_int(&[0xFF, 0xFF]), Err(CodecError::TruncatedInput));
    assert_eq!(decode_variable_byte_int(&[0x80, 0x80, 0x80]), Err(CodecError::TruncatedInput));
    assert_eq!(
        decode_variable_byte_int(&[0x80, 0x80, 0x80, 0x80]),
        Err(CodecError::TruncatedInput)
    );
}

#[test]
fn decode_a_fifth_byte_is_malformed() {
    assert_eq!(
        decode_variable_byte_int(&[0x80, 0x80, 0x80, 0x80, 0x01]),
        Err(CodecError::MalformedVarInt)
    );
    assert_eq!(
        decode_variable_byte_int(&[0xFF, 0xFF, 0xFF, 0xFF, 0xFF]),
        Err(CodecError::MalformedVarInt)
    );
    assert_eq!(
        decode_variable_byte_int(&[0xFF, 0xFF, 0xFF, 0xFF, 0x7F, 0x00]),
        Err(CodecError::MalformedVarInt)
    );
}

#[test]
fn var_byte_holds_the_encoding() {
    let v = VarByte::from(321).unwrap();
    assert_eq!(v.data(), &vec![0xC1, 0x02]);
    assert_eq!(u32::from(v), 321);
}

#[test]
fn u32_from_var_byte_at_the_size_boundaries() {
    for v in [0u32, 127, 128, 16_383, 16_384, 2_097_151, 2_097_152, 268_435_455] {
        assert_eq!(u32::from(VarByte::from(v).unwrap()), v);
    }
}
