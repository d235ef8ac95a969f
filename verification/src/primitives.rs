//! The fields that every packet is made of: single bytes, two-byte integers
//! with the most significant byte first, and binary data and UTF-8 strings
//! behind a two-byte length.
//!
//! Each decoder reads from the front of its input and says how many bytes it
//! took, so that the caller can go on behind them.

use vstd::prelude::*;
use vstd::slice::{slice_subrange, slice_to_vec};
use vstd::utf8::{
    decode_utf8, decode_utf8_encode_utf8, encode_utf8, encode_utf8_decode_utf8,
    encode_utf8_valid_utf8, valid_utf8,
};
use crate::error::CodecError;
use crate::types::{MQTTBinary, MQTTByte, MQTTString, MQTTTwoBytes, MAX_FIELD_LEN};

verus! {

/// The two bytes of `v`, most significant first.
pub open spec fn two_bytes(v: MQTTTwoBytes) -> Seq<u8> {
    seq![(v / 256) as u8, (v % 256) as u8]
}

/// The wire form of binary data: its length in two bytes, then the data.
pub open spec fn binary_bytes(data: Seq<u8>) -> Seq<u8>
    recommends
        data.len() <= MAX_FIELD_LEN,
{
    two_bytes(data.len() as u16) + data
}

/// True when the UTF-8 form of `text` fits a string field.
pub open spec fn text_fits(text: Seq<char>) -> bool {
    encode_utf8(text).len() <= MAX_FIELD_LEN
}

/// The wire form of a text: its UTF-8 form as binary data.
pub open spec fn string_bytes(text: Seq<char>) -> Seq<u8>
    recommends
        text_fits(text),
{
    binary_bytes(encode_utf8(text))
}

/// What decoding one byte from the front of `s` gives.
pub open spec fn spec_decode_byte(s: Seq<u8>) -> Result<(MQTTByte, nat), CodecError> {
    if s.len() < 1 {
        Err(CodecError::TruncatedInput)
    } else {
        Ok((s[0], 1))
    }
}

/// What decoding a two-byte integer from the front of `s` gives.
pub open spec fn spec_decode_two_bytes(s: Seq<u8>) -> Result<(MQTTTwoBytes, nat), CodecError> {
    if s.len() < 2 {
        Err(CodecError::TruncatedInput)
    } else {
        Ok(((s[0] * 256 + s[1]) as u16, 2))
    }
}

/// What decoding binary data from the front of `s` gives: the bytes behind
/// the two-byte length, as many as the length says, where `s` has that many.
pub open spec fn spec_decode_binary(s: Seq<u8>) -> Result<(Seq<u8>, nat), CodecError> {
    if s.len() < 2 {
        Err(CodecError::TruncatedInput)
    } else {
        let n = s[0] * 256 + s[1];
        if s.len() < 2 + n {
            Err(CodecError::TruncatedInput)
        } else {
            Ok((s.subrange(2, 2 + n), (2 + n) as nat))
        }
    }
}

/// What decoding a string from the front of `s` gives: the text whose UTF-8
/// form the length-prefixed bytes are, where they are valid UTF-8.
pub open spec fn spec_decode_string(s: Seq<u8>) -> Result<(Seq<char>, nat), CodecError> {
    match spec_decode_binary(s) {
        Err(e) => Err(e),
        Ok((bytes, used)) => if valid_utf8(bytes) {
            Ok((decode_utf8(bytes), used))
        } else {
            Err(CodecError::InvalidUtf8)
        },
    }
}

/// The part of `source` from `from` on.
pub(crate) fn bytes_from(source: &[u8], from: usize) -> (r: &[u8])
    requires
        from <= source@.len(),
    ensures
        r@ == source@.skip(from as int),
{
    slice_subrange(source, from, source.len())
}

/// Encodes a single byte.
pub fn encode_byte(value: MQTTByte) -> (r: Vec<u8>)
    ensures
        r@ == seq![value],
{
    let mut out: Vec<u8> = Vec::new();
    out.push(value);
    out
}

/// Decodes a single byte; fails with `TruncatedInput` on an empty input.
pub fn decode_byte(source: &[u8]) -> (r: Result<(MQTTByte, usize), CodecError>)
    ensures
        match r {
            Ok((value, used)) => spec_decode_byte(source@) == Ok::<(u8, nat), CodecError>(
                (value, used as nat),
            ),
            Err(e) => spec_decode_byte(source@) == Err::<(u8, nat), CodecError>(e),
        },
{
    if source.len() < 1 {
        Err(CodecError::TruncatedInput)
    } else {
        Ok((source[0], 1))
    }
}

/// Encodes a two-byte integer, most significant byte first.
pub fn encode_two_bytes(value: MQTTTwoBytes) -> (r: Vec<u8>)
    ensures
        r@ == two_bytes(value),
{
    let hi: u8 = (value >> 8) as u8;
    let lo: u8 = (value & 0xff) as u8;
    assert(hi == value / 256 && lo == value % 256) by (bit_vector)
        requires
            hi == (value >> 8) as u8,
            lo == (value & 0xff) as u8,
    ;
    let mut out: Vec<u8> = Vec::new();
    out.push(hi);
    out.push(lo);
    out
}

/// Decodes a two-byte integer; fails with `TruncatedInput` where fewer than
/// two bytes are there.
pub fn decode_two_bytes(source: &[u8]) -> (r: Result<(MQTTTwoBytes, usize), CodecError>)
    ensures
        match r {
            Ok((value, used)) => spec_decode_two_bytes(source@) == Ok::<(u16, nat), CodecError>(
                (value, used as nat),
            ),
            Err(e) => spec_decode_two_bytes(source@) == Err::<(u16, nat), CodecError>(e),
        },
{
    if source.len() < 2 {
        Err(CodecError::TruncatedInput)
    } else {
        let hi: u16 = source[0] as u16;
        let lo: u16 = source[1] as u16;
        Ok((hi * 256 + lo, 2))
    }
}

/// Puts the two-byte length of `data` before a copy of `data`.
pub(crate) fn length_prefixed(data: &[u8]) -> (r: Vec<u8>)
    requires
        data@.len() <= MAX_FIELD_LEN,
    ensures
        r@ == binary_bytes(data@),
{
    let n: usize = data.len();
    let mut out: Vec<u8> = encode_two_bytes(n as u16);
    let mut i: usize = 0;
    while i < n
        invariant
            n == data@.len(),
            i <= n,
            out@ == two_bytes(n as u16) + data@.take(i as int),
        decreases n - i,
    {
        out.push(data[i]);
        assert(data@.take(i + 1) == data@.take(i as int).push(data@[i as int]));
        i = i + 1;
    }
    assert(data@.take(n as int) == data@);
    out
}

/// Encodes binary data: its length in two bytes, then the data.
///
/// Fails with `RangeError` exactly when `data` is longer than 65,535 bytes.
pub fn encode_binary(data: &[u8]) -> (r: Result<Vec<u8>, CodecError>)
    ensures
        data@.len() <= MAX_FIELD_LEN ==> r is Ok && r->Ok_0@ == binary_bytes(data@),
        data@.len() > MAX_FIELD_LEN ==> r == Err::<Vec<u8>, CodecError>(CodecError::RangeError),
{
    if data.len() > MAX_FIELD_LEN {
        Err(CodecError::RangeError)
    } else {
        Ok(length_prefixed(data))
    }
}

/// Encodes a text: the length of its UTF-8 form in two bytes, then that form.
///
/// Fails with `RangeError` exactly when the UTF-8 form of `value` is longer
/// than 65,535 bytes.
pub fn encode_string(value: &str) -> (r: Result<Vec<u8>, CodecError>)
    ensures
        encode_utf8(value@).len() <= MAX_FIELD_LEN ==> r is Ok && r->Ok_0@ == string_bytes(
            value@,
        ),
        encode_utf8(value@).len() > MAX_FIELD_LEN ==> r == Err::<Vec<u8>, CodecError>(
            CodecError::RangeError,
        ),
{
    encode_binary(value.as_bytes())
}

/// Decodes binary data: reads the two-byte length, then takes that many
/// bytes. Fails with `TruncatedInput` where the length itself or the bytes
/// it announces are not all there.
pub fn decode_binary(source: &[u8]) -> (r: Result<(MQTTBinary, usize), CodecError>)
    ensures
        match r {
            Ok((data, used)) => spec_decode_binary(source@) == Ok::<(Seq<u8>, nat), CodecError>(
                (data@, used as nat),
            ),
            Err(e) => spec_decode_binary(source@) == Err::<(Seq<u8>, nat), CodecError>(e),
        },
{
    match decode_two_bytes(source) {
        Err(e) => Err(e),
        Ok((len, _)) => {
            let n: usize = len as usize;
            if source.len() - 2 < n {
                Err(CodecError::TruncatedInput)
            } else {
                let bytes: Vec<u8> = slice_to_vec(slice_subrange(source, 2, 2 + n));
                Ok((MQTTBinary::from(bytes).unwrap(), 2 + n))
            }
        },
    }
}

/// The error of `String::from_utf8` of the standard library. Nothing is said
/// of what it holds.
#[verifier::external_type_specification]
#[verifier::external_body]
pub struct ExFromUtf8Error(std::string::FromUtf8Error);

/// `String::from_utf8` of the standard library: succeeds exactly where the
/// bytes are valid UTF-8, and then yields the text whose UTF-8 form they are.
pub assume_specification[ String::from_utf8 ](vec: Vec<u8>) -> (r: Result<
    String,
    std::string::FromUtf8Error,
>)
    ensures
        r is Ok <==> valid_utf8(vec@),
        r matches Ok(text) ==> text@ == decode_utf8(vec@),
;

/// Decodes a string: reads the two-byte length, takes that many bytes, and
/// reads them as UTF-8. Fails with `TruncatedInput` where the length itself
/// or the bytes it announces are not all there, and with `InvalidUtf8` where
/// the bytes are not valid UTF-8.
pub fn decode_string(source: &[u8]) -> (r: Result<(MQTTString, usize), CodecError>)
    ensures
        match r {
            Ok((text, used)) => spec_decode_string(source@) == Ok::<(Seq<char>, nat), CodecError>(
                (text@, used as nat),
            ),
            Err(e) => spec_decode_string(source@) == Err::<(Seq<char>, nat), CodecError>(e),
        },
{
    match decode_two_bytes(source) {
        Err(e) => Err(e),
        Ok((len, _)) => {
            let n: usize = len as usize;
            if source.len() - 2 < n {
                Err(CodecError::TruncatedInput)
            } else {
                let bytes: Vec<u8> = slice_to_vec(slice_subrange(source, 2, 2 + n));
                match String::from_utf8(bytes) {
                    Err(_) => Err(CodecError::InvalidUtf8),
                    Ok(text) => {
                        proof {
                            decode_utf8_encode_utf8(source@.subrange(2, 2 + n));
                        }
                        Ok((MQTTString::from(text).unwrap(), 2 + n))
                    },
                }
            }
        },
    }
}

/// Decoding undoes encoding of a single byte, whatever bytes follow it.
pub proof fn byte_round_trip(value: MQTTByte, rest: Seq<u8>)
    ensures
        spec_decode_byte(seq![value] + rest) == Ok::<(u8, nat), CodecError>((value, 1)),
{
}

/// Decoding undoes encoding of a two-byte integer, whatever bytes follow it.
pub proof fn two_bytes_round_trip(value: MQTTTwoBytes, rest: Seq<u8>)
    ensures
        spec_decode_two_bytes(two_bytes(value) + rest) == Ok::<(u16, nat), CodecError>(
            (value, 2),
        ),
{
}

/// Decoding undoes encoding of binary data: from the wire form of data of at
/// most 65,535 bytes, whatever bytes follow it, the decoder gives back the
/// data and takes exactly its wire form.
pub proof fn binary_round_trip(data: Seq<u8>, rest: Seq<u8>)
    requires
        data.len() <= MAX_FIELD_LEN,
    ensures
        spec_decode_binary(binary_bytes(data) + rest) == Ok::<(Seq<u8>, nat), CodecError>(
            (data, 2 + data.len()),
        ),
        binary_bytes(data).len() == 2 + data.len(),
{
    let s = binary_bytes(data) + rest;
    assert(s[0] * 256 + s[1] == data.len());
    assert(s.subrange(2, 2 + data.len() as int) =~= data);
}

/// Decoding undoes encoding of a string: from the wire form of a text whose
/// UTF-8 form is at most 65,535 bytes long, whatever bytes follow it, the
/// decoder gives back the text and takes exactly its wire form.
pub proof fn string_round_trip(text: Seq<char>, rest: Seq<u8>)
    requires
        text_fits(text),
    ensures
        spec_decode_string(string_bytes(text) + rest) == Ok::<(Seq<char>, nat), CodecError>(
            (text, 2 + encode_utf8(text).len()),
        ),
        string_bytes(text).len() == 2 + encode_utf8(text).len(),
{
    binary_round_trip(encode_utf8(text), rest);
    encode_utf8_valid_utf8(text);
    encode_utf8_decode_utf8(text);
}

/// What the decoders yield can be encoded again: decoded binary data and the
/// UTF-8 form of a decoded string are at most 65,535 bytes long, and no
/// decoder took more bytes than there were.
pub proof fn decoded_field_fits(s: Seq<u8>)
    ensures
        spec_decode_binary(s) matches Ok((data, used)) ==> data.len() <= MAX_FIELD_LEN && used
            == 2 + data.len() && used <= s.len(),
        spec_decode_string(s) matches Ok((text, used)) ==> text_fits(text) && used == 2
            + encode_utf8(text).len() && used <= s.len(),
{
    if let Ok((bytes, used)) = spec_decode_binary(s) {
        if valid_utf8(bytes) {
            decode_utf8_encode_utf8(bytes);
        }
    }
}

} // verus!
