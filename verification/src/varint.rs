//! The variable byte integer: one to four bytes, seven bits of value in each,
//! least significant group first, with the top bit of a byte set when another
//! byte follows.

use vstd::prelude::*;
use crate::error::CodecError;

verus! {

/// The largest value that four bytes can carry: `128^4 - 1`.
pub const VARINT_MAX: u32 = 268_435_455;

/// The bytes that stand for `v`: the low seven bits of `v`, with the
/// continuation bit set when more remains, followed by the bytes of the
/// remaining quotient.
pub open spec fn varint_bytes(v: nat) -> Seq<u8>
    decreases v,
{
    if v < 128 {
        seq![v as u8]
    } else {
        seq![(128 + v % 128) as u8] + varint_bytes(v / 128)
    }
}

/// The number of bytes that the encoding of `v` has: one below 128, two
/// below 128^2, three below 128^3, four up to [`VARINT_MAX`].
pub open spec fn varint_size(v: nat) -> nat {
    if v < 128 {
        1
    } else if v < 16_384 {
        2
    } else if v < 2_097_152 {
        3
    } else {
        4
    }
}

/// The seven value bits of the byte at `i`, or zero where `s` has no such byte.
pub open spec fn varint_digit(s: Seq<u8>, i: int) -> nat {
    if 0 <= i < s.len() {
        (s[i] % 128) as nat
    } else {
        0
    }
}

/// The weight of the digit at place `i`: `128^i` for the four places there are.
pub open spec fn varint_weight(i: int) -> nat {
    if i <= 0 {
        1
    } else if i == 1 {
        128
    } else if i == 2 {
        16_384
    } else {
        2_097_152
    }
}

/// The number that the first four bytes of `s` spell in base 128, least
/// significant digit first, continuation bits left aside.
pub open spec fn varint_value(s: Seq<u8>) -> nat {
    varint_digit(s, 0) + 128 * varint_digit(s, 1) + 16_384 * varint_digit(s, 2) + 2_097_152
        * varint_digit(s, 3)
}

/// True when `s` is the shortest form of a variable byte integer: one to four
/// bytes, the continuation bit set on all but the last, and no last byte of
/// zero behind another byte.
pub open spec fn is_canonical_varint(s: Seq<u8>) -> bool {
    &&& 1 <= s.len() <= 4
    &&& forall|i: int| 0 <= i < s.len() - 1 ==> s[i] >= 128
    &&& s.last() < 128
    &&& s.len() > 1 ==> s.last() != 0
}

/// The length of the variable byte integer that `s` begins with: the place of
/// the first byte without a continuation bit, if one of the first four bytes
/// of `s` is such a byte.
pub open spec fn varint_length(s: Seq<u8>) -> Option<nat> {
    if s.len() > 0 && s[0] < 128 {
        Some(1)
    } else if s.len() > 1 && s[1] < 128 {
        Some(2)
    } else if s.len() > 2 && s[2] < 128 {
        Some(3)
    } else if s.len() > 3 && s[3] < 128 {
        Some(4)
    } else {
        None
    }
}

/// What decoding a variable byte integer from the front of `s` gives: the
/// value and the number of bytes it took. Four bytes with a continuation bit
/// and a fifth byte behind them are malformed for good; a shorter input in
/// which every byte has the continuation bit set is merely incomplete.
pub open spec fn spec_decode_varint(s: Seq<u8>) -> Result<(nat, nat), CodecError> {
    match varint_length(s) {
        Some(n) => Ok((varint_value(s.take(n as int)), n)),
        None => if s.len() > 4 {
            Err(CodecError::MalformedVarInt)
        } else {
            Err(CodecError::TruncatedInput)
        },
    }
}

/// Encodes `value` as a variable byte integer.
///
/// Takes the value modulo 128 as the seven value bits of the next byte, sets
/// the continuation bit when the quotient by 128 is not zero, and goes on
/// with the quotient until it is zero. The result has one to four bytes and
/// is the shortest form of `value`. Fails with `RangeError` exactly when
/// `value` is above [`VARINT_MAX`].
pub fn encode_variable_byte_int(value: u32) -> (r: Result<Vec<u8>, CodecError>)
    ensures
        value <= VARINT_MAX ==> r is Ok && r->Ok_0@ == varint_bytes(value as nat),
        value > VARINT_MAX ==> r == Err::<Vec<u8>, CodecError>(CodecError::RangeError),
        r matches Ok(bytes) ==> is_canonical_varint(bytes@) && bytes@.len() == varint_size(
            value as nat,
        ),
{
    if value > VARINT_MAX {
        return Err(CodecError::RangeError);
    }
    proof {
        varint_bytes_canonical(value as nat);
    }
    let mut x: u32 = value;
    let mut v: Vec<u8> = Vec::new();
    loop
        invariant_except_break
            v@ + varint_bytes(x as nat) == varint_bytes(value as nat),
        ensures
            v@ == varint_bytes(value as nat),
        decreases x,
    {
        let mut b: u8 = (x % 128) as u8;
        let ghost before = x;
        x = x / 128;
        if x > 0 {
            assert(b | 0x80 == 128 + b) by (bit_vector)
                requires
                    b < 128,
            ;
            b = b | 0x80;
        }
        proof {
            let tail = if before < 128 {
                Seq::<u8>::empty()
            } else {
                varint_bytes(x as nat)
            };
            assert(varint_bytes(before as nat) == seq![b] + tail);
            assert(v@ + (seq![b] + tail) == v@.push(b) + tail);
        }
        v.push(b);
        if x == 0 {
            break;
        }
    }
    Ok(v)
}

/// Decodes the variable byte integer at the front of `source` and says how
/// many bytes it took.
///
/// Reads byte after byte, adding each byte's seven value bits at their place,
/// and stops at the first byte without a continuation bit. Fails with
/// `TruncatedInput` when `source` ends before such a byte was seen, and with
/// `MalformedVarInt` when a fifth byte would have to be read.
pub fn decode_variable_byte_int(source: &[u8]) -> (r: Result<(u32, usize), CodecError>)
    ensures
        match r {
            Ok((value, used)) => spec_decode_varint(source@) == Ok::<(nat, nat), CodecError>(
                (value as nat, used as nat),
            ),
            Err(e) => spec_decode_varint(source@) == Err::<(nat, nat), CodecError>(e),
        },
{
    let mut multiplier: u32 = 1;
    let mut value: u32 = 0;
    let mut i: usize = 0;
    loop
        invariant
            i <= 4,
            i <= source@.len(),
            forall|j: int| 0 <= j < i ==> source@[j] >= 128,
            multiplier == if i == 4 {
                268_435_456
            } else {
                varint_weight(i as int)
            },
            value == varint_value(source@.take(i as int)),
        decreases 5 - i,
    {
        if i >= source.len() {
            return Err(CodecError::TruncatedInput);
        }
        if i == 4 {
            return Err(CodecError::MalformedVarInt);
        }
        let b: u8 = source[i];
        let digit: u8 = b & 127;
        assert(digit == b % 128) by (bit_vector)
            requires
                digit == b & 127,
        ;
        assert((b & 128 == 0) == (b < 128)) by (bit_vector);
        proof {
            varint_value_extend(source@, i as int);
        }
        let term: u32 = (digit as u32) * multiplier;
        value = value + term;
        if b & 128 == 0 {
            return Ok((value, i + 1));
        }
        multiplier = multiplier * 128;
        i = i + 1;
    }
}

/// Reading one more byte adds its seven value bits at the weight of its place.
pub proof fn varint_value_extend(s: Seq<u8>, i: int)
    requires
        0 <= i < 4,
        i < s.len(),
    ensures
        varint_value(s.take(i + 1)) == varint_value(s.take(i)) + (s[i] % 128) * varint_weight(i),
        varint_value(s.take(i)) < varint_weight(i),
        (s[i] % 128) * varint_weight(i) + varint_value(s.take(i)) < 128 * varint_weight(i),
{
    let longer = s.take(i + 1);
    let shorter = s.take(i);
    let digit = (s[i] % 128) as int;
    assert forall|j: int| 0 <= j < 4 && j != i implies varint_digit(longer, j) == varint_digit(
        shorter,
        j,
    ) by {}
    assert(varint_digit(longer, i) == digit);
    assert(varint_digit(shorter, i) == 0);
    let w = varint_weight(i) as int;
    if i == 0 {
        assert(digit * w == digit) by (nonlinear_arith)
            requires
                w == 1,
        ;
    } else if i == 1 {
        assert(digit * w == 128 * digit) by (nonlinear_arith)
            requires
                w == 128,
        ;
    } else if i == 2 {
        assert(digit * w == 16_384 * digit) by (nonlinear_arith)
            requires
                w == 16_384,
        ;
    } else {
        assert(digit * w == 2_097_152 * digit) by (nonlinear_arith)
            requires
                w == 2_097_152,
        ;
    }
}

/// The bytes of a value in range, written out place by place.
proof fn varint_bytes_unfolded(v: nat)
    requires
        v <= VARINT_MAX,
    ensures
        varint_bytes(v) =~= if v < 128 {
            seq![v as u8]
        } else if v < 16_384 {
            seq![(128 + v % 128) as u8, (v / 128) as u8]
        } else if v < 2_097_152 {
            seq![(128 + v % 128) as u8, (128 + (v / 128) % 128) as u8, (v / 16_384) as u8]
        } else {
            seq![
                (128 + v % 128) as u8,
                (128 + (v / 128) % 128) as u8,
                (128 + (v / 16_384) % 128) as u8,
                (v / 2_097_152) as u8,
            ]
        },
{
    reveal_with_fuel(varint_bytes, 4);
    assert(v / 128 / 128 == v / 16_384);
    assert(v / 128 / 128 / 128 == v / 2_097_152);
}

/// Every value in range is encoded in the shortest form there is, and in as
/// many bytes as its size class says.
pub proof fn varint_bytes_canonical(v: nat)
    requires
        v <= VARINT_MAX,
    ensures
        is_canonical_varint(varint_bytes(v)),
        varint_bytes(v).len() == varint_size(v),
{
    varint_bytes_unfolded(v);
}

/// A value in range is the sum of its four base-128 digits at their places.
proof fn varint_digits_sum(v: nat)
    requires
        v <= VARINT_MAX,
    ensures
        v == v % 128 + 128 * ((v / 128) % 128) + 16_384 * ((v / 16_384) % 128) + 2_097_152 * (v
            / 2_097_152),
        v / 2_097_152 < 128,
        v < 2_097_152 ==> (v / 16_384) % 128 == v / 16_384,
        v < 16_384 ==> (v / 128) % 128 == v / 128,
{
}

/// Four digits below 128 are the base-128 digits of their sum.
proof fn varint_digits_of_sum(d0: nat, d1: nat, d2: nat, d3: nat)
    requires
        d0 < 128,
        d1 < 128,
        d2 < 128,
        d3 < 128,
    ensures
        ({
            let v = d0 + 128 * d1 + 16_384 * d2 + 2_097_152 * d3;
            &&& v <= VARINT_MAX
            &&& v % 128 == d0
            &&& (v / 128) % 128 == d1
            &&& (v / 16_384) % 128 == d2
            &&& v / 2_097_152 == d3
            &&& v / 128 == d1 + 128 * d2 + 16_384 * d3
            &&& v / 16_384 == d2 + 128 * d3
        }),
{
}

/// Decoding undoes encoding: from the encoding of a value in range, whatever
/// bytes follow it, the decoder gives back the value and takes exactly the
/// bytes of the encoding.
pub proof fn varint_round_trip(v: nat, rest: Seq<u8>)
    requires
        v <= VARINT_MAX,
    ensures
        spec_decode_varint(varint_bytes(v) + rest) == Ok::<(nat, nat), CodecError>(
            (v, varint_bytes(v).len()),
        ),
{
    varint_bytes_unfolded(v);
    varint_digits_sum(v);
    let bytes = varint_bytes(v);
    let s = bytes + rest;
    let n = bytes.len();
    assert(s.take(n as int) =~= bytes);
    assert forall|i: int| 0 <= i < n implies s[i] == bytes[i] by {}
    if v < 128 {
        assert(s[0] == v);
        assert(varint_value(bytes) == v);
    } else if v < 16_384 {
        assert(s[0] == 128 + v % 128 && s[1] == v / 128);
        assert(varint_digit(bytes, 0) == v % 128);
        assert(varint_digit(bytes, 1) == v / 128);
        assert(varint_value(bytes) == v);
    } else if v < 2_097_152 {
        assert(s[0] == 128 + v % 128 && s[1] == 128 + (v / 128) % 128 && s[2] == v / 16_384);
        assert(varint_digit(bytes, 0) == v % 128);
        assert(varint_digit(bytes, 1) == (v / 128) % 128);
        assert(varint_digit(bytes, 2) == v / 16_384);
        assert(varint_value(bytes) == v);
    } else {
        assert(s[0] == 128 + v % 128 && s[1] == 128 + (v / 128) % 128 && s[2] == 128 + (v
            / 16_384) % 128 && s[3] == v / 2_097_152);
        assert(varint_digit(bytes, 0) == v % 128);
        assert(varint_digit(bytes, 1) == (v / 128) % 128);
        assert(varint_digit(bytes, 2) == (v / 16_384) % 128);
        assert(varint_digit(bytes, 3) == v / 2_097_152);
        assert(varint_value(bytes) == v);
    }
}

/// The encoding of a value in range spells that value.
pub proof fn varint_value_of_bytes(v: nat)
    requires
        v <= VARINT_MAX,
    ensures
        varint_value(varint_bytes(v)) == v,
{
    let bytes = varint_bytes(v);
    varint_round_trip(v, Seq::empty());
    assert(bytes + Seq::<u8>::empty() =~= bytes);
    assert(bytes.take(bytes.len() as int) =~= bytes);
}

/// Encoding undoes decoding on shortest forms: a byte sequence in shortest
/// form is the encoding of the value it spells, so no two shortest forms
/// spell one value.
pub proof fn varint_canonical_unique(s: Seq<u8>)
    requires
        is_canonical_varint(s),
    ensures
        varint_value(s) <= VARINT_MAX,
        varint_bytes(varint_value(s)) == s,
{
    let v = varint_value(s);
    let d0 = varint_digit(s, 0);
    let d1 = varint_digit(s, 1);
    let d2 = varint_digit(s, 2);
    let d3 = varint_digit(s, 3);
    varint_digits_of_sum(d0, d1, d2, d3);
    varint_bytes_unfolded(v);
    if s.len() == 1 {
        assert(s[0] == d0);
        assert(v == d0);
    } else if s.len() == 2 {
        assert(s[0] == 128 + d0 && s[1] == d1 && d1 != 0);
        assert(v == d0 + 128 * d1);
    } else if s.len() == 3 {
        assert(s[0] == 128 + d0 && s[1] == 128 + d1 && s[2] == d2 && d2 != 0);
        assert(v == d0 + 128 * d1 + 16_384 * d2);
    } else {
        assert(s[0] == 128 + d0 && s[1] == 128 + d1 && s[2] == 128 + d2 && s[3] == d3 && d3
            != 0);
    }
    assert(varint_bytes(v) =~= s);
}

/// No shorter bytes decode to the same value: whatever input decodes to `v`,
/// the decoder took at least as many bytes from it as the encoding of `v` has.
pub proof fn varint_encoding_is_shortest(s: Seq<u8>, v: nat, used: nat)
    requires
        spec_decode_varint(s) == Ok::<(nat, nat), CodecError>((v, used)),
    ensures
        v <= VARINT_MAX,
        varint_bytes(v).len() <= used,
{
    let t = s.take(used as int);
    assert(forall|i: int| 0 <= i < used ==> t[i] == s[i]);
    varint_bytes_canonical(v);
}

/// An input that ends while the continuation bit is still set is reported as
/// incomplete, never decoded to a value: the decoder fails with
/// `TruncatedInput` exactly where at most four bytes are there and each has
/// its continuation bit set.
pub proof fn varint_truncation_detected(s: Seq<u8>)
    ensures
        spec_decode_varint(s) == Err::<(nat, nat), CodecError>(CodecError::TruncatedInput) <==> (
        s.len() <= 4 && forall|i: int| 0 <= i < s.len() ==> s[i] >= 128),
{
}

/// A variable byte integer that runs on past its fourth byte is refused for
/// good: the decoder fails with `MalformedVarInt` exactly where five bytes or
/// more are there and each of the first four has its continuation bit set.
pub proof fn varint_malformed_detected(s: Seq<u8>)
    ensures
        spec_decode_varint(s) == Err::<(nat, nat), CodecError>(CodecError::MalformedVarInt) <==> (
        s.len() > 4 && forall|i: int| 0 <= i < 4 ==> s[i] >= 128),
{
}

/// The decoder never yields a value out of range, and takes one to four bytes.
pub proof fn varint_decoded_in_range(s: Seq<u8>)
    ensures
        spec_decode_varint(s) matches Ok((v, used)) ==> v <= VARINT_MAX && 1 <= used <= 4 && used
            <= s.len(),
{
    if let Ok((v, used)) = spec_decode_varint(s) {
        let t = s.take(used as int);
        assert(forall|i: int| 0 <= i < used ==> t[i] == s[i]);
    }
}

/// Only an incomplete input can be cured by more input: where the decoder
/// yields a value or fails with `MalformedVarInt`, it does the same whatever
/// bytes are put behind the input.
pub proof fn varint_verdict_is_final(s: Seq<u8>, more: Seq<u8>)
    requires
        spec_decode_varint(s) != Err::<(nat, nat), CodecError>(CodecError::TruncatedInput),
    ensures
        spec_decode_varint(s + more) == spec_decode_varint(s),
{
    let longer = s + more;
    assert forall|i: int| 0 <= i < s.len() implies longer[i] == s[i] by {}
    if let Some(n) = varint_length(s) {
        assert(longer.take(n as int) =~= s.take(n as int));
    }
}

} // verus!
