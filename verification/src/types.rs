//! The value types of the wire format: bytes, two-byte integers, strings and
//! binary data with a length that two bytes can hold, and the variable byte
//! integer in its encoded form.

use vstd::prelude::*;
use vstd::slice::slice_to_vec;
use vstd::utf8::encode_utf8;
use crate::primitives::{binary_bytes, length_prefixed, string_bytes};
use crate::varint::{
    encode_variable_byte_int, is_canonical_varint, varint_bytes, varint_canonical_unique,
    varint_value, varint_value_extend, varint_value_of_bytes, varint_weight, VARINT_MAX,
};

verus! {

/// A field of one byte.
pub type MQTTByte = u8;

/// A field of two bytes, sent most significant byte first.
pub type MQTTTwoBytes = u16;

/// The largest number of bytes that a string or binary field can hold.
pub const MAX_FIELD_LEN: usize = 65_535;

/// A text whose UTF-8 form is at most 65,535 bytes long, together with that
/// length. A longer text is refused when the value is made, so every value of
/// this type can be encoded.
#[derive(Debug, PartialEq, Eq)]
pub struct MQTTString {
    len: MQTTTwoBytes,
    data: String,
}

impl View for MQTTString {
    type V = Seq<char>;

    closed spec fn view(&self) -> Seq<char> {
        self.data@
    }
}

impl MQTTString {
    /// The length that the value carries with its text.
    pub closed spec fn spec_len(&self) -> MQTTTwoBytes {
        self.len
    }

    /// The carried length is the number of bytes of the text's UTF-8 form.
    #[verifier::type_invariant]
    pub open spec fn wf(&self) -> bool {
        self.spec_len() as nat == encode_utf8(self@).len()
    }

    /// Makes a string field from `s`, or nothing when the UTF-8 form of `s`
    /// is longer than 65,535 bytes.
    pub fn from(s: String) -> (r: Option<Self>)
        ensures
            r is Some <==> encode_utf8(s@).len() <= MAX_FIELD_LEN,
            r matches Some(m) ==> m@ == s@ && m.wf(),
    {
        let n: usize = s.as_str().as_bytes().len();
        if n <= MAX_FIELD_LEN {
            Some(MQTTString { len: n as u16, data: s })
        } else {
            None
        }
    }

    /// The empty string.
    pub fn new() -> (r: Self)
        ensures
            r@ == Seq::<char>::empty(),
            r.wf(),
    {
        MQTTString { len: 0, data: String::new() }
    }

    /// The number of bytes of the text's UTF-8 form.
    #[verifier::when_used_as_spec(spec_len)]
    pub fn len(&self) -> (r: MQTTTwoBytes)
        ensures
            r == self.spec_len(),
            r as nat == encode_utf8(self@).len(),
    {
        proof {
            use_type_invariant(self);
        }
        self.len
    }

    /// The text.
    pub fn data(&self) -> (r: &String)
        ensures
            r@ == self@,
    {
        &self.data
    }

    /// Encodes the string: its length in two bytes, then its UTF-8 form.
    pub fn encode(&self) -> (r: Vec<u8>)
        ensures
            r@ == string_bytes(self@),
    {
        proof {
            use_type_invariant(self);
        }
        length_prefixed(self.data.as_str().as_bytes())
    }
}

impl Clone for MQTTString {
    /// A copy with the same text.
    fn clone(&self) -> (r: Self)
        ensures
            r@ == self@,
            r.wf(),
    {
        proof {
            use_type_invariant(self);
        }
        MQTTString { len: self.len, data: self.data.clone() }
    }
}

/// Binary data of at most 65,535 bytes. Longer data is refused when the value
/// is made, so every value of this type can be encoded.
#[derive(Debug, PartialEq, Eq)]
pub struct MQTTBinary {
    data: Vec<u8>,
}

impl View for MQTTBinary {
    type V = Seq<u8>;

    closed spec fn view(&self) -> Seq<u8> {
        self.data@
    }
}

impl MQTTBinary {
    /// The data fits the two-byte length that goes before it on the wire.
    #[verifier::type_invariant]
    pub open spec fn wf(&self) -> bool {
        self@.len() <= MAX_FIELD_LEN
    }

    /// Makes a binary field from `data`, or nothing when `data` is longer
    /// than 65,535 bytes.
    pub fn from(data: Vec<u8>) -> (r: Option<Self>)
        ensures
            r is Some <==> data@.len() <= MAX_FIELD_LEN,
            r matches Some(m) ==> m@ == data@ && m.wf(),
    {
        if data.len() <= MAX_FIELD_LEN {
            Some(MQTTBinary { data })
        } else {
            None
        }
    }

    /// Binary data of no bytes.
    pub fn new() -> (r: Self)
        ensures
            r@ == Seq::<u8>::empty(),
            r.wf(),
    {
        MQTTBinary { data: Vec::new() }
    }

    /// The number of bytes of the data.
    pub fn len(&self) -> (r: MQTTTwoBytes)
        ensures
            r as nat == self@.len(),
    {
        proof {
            use_type_invariant(self);
        }
        self.data.len() as u16
    }

    /// The data.
    pub fn data(&self) -> (r: &Vec<u8>)
        ensures
            r@ == self@,
    {
        &self.data
    }

    /// Encodes the data: its length in two bytes, then the data.
    pub fn encode(&self) -> (r: Vec<u8>)
        ensures
            r@ == binary_bytes(self@),
    {
        proof {
            use_type_invariant(self);
        }
        length_prefixed(self.data.as_slice())
    }
}

impl Clone for MQTTBinary {
    /// A copy with the same data.
    fn clone(&self) -> (r: Self)
        ensures
            r@ == self@,
            r.wf(),
    {
        proof {
            use_type_invariant(self);
        }
        MQTTBinary { data: slice_to_vec(self.data.as_slice()) }
    }
}

/// A variable byte integer in its encoded form: the one to four bytes that
/// stand for a value of at most 268,435,455, in the shortest form there is.
#[derive(Debug, PartialEq, Eq)]
pub struct VarByte {
    data: Vec<u8>,
}

/// The failure to put a number into a [`VarByte`]: the number is above
/// 268,435,455, which four bytes cannot carry.
#[derive(Clone, Copy, Debug, PartialEq, Eq, Structural)]
pub struct ParseVarByteError;

impl ParseVarByteError {
    /// The text that describes this failure.
    pub fn message(&self) -> (r: String)
        ensures
            r@ == "could not parse into VarByte"@,
    {
        "could not parse into VarByte".to_owned()
    }
}

impl View for VarByte {
    type V = Seq<u8>;

    closed spec fn view(&self) -> Seq<u8> {
        self.data@
    }
}

impl VarByte {
    /// The bytes are a variable byte integer in shortest form.
    #[verifier::type_invariant]
    pub open spec fn wf(&self) -> bool {
        is_canonical_varint(self@)
    }

    /// The value that the bytes stand for.
    pub open spec fn value(&self) -> nat {
        varint_value(self@)
    }

    /// Encodes `value`, or fails when `value` is above 268,435,455.
    pub fn from(value: u32) -> (r: Result<VarByte, ParseVarByteError>)
        ensures
            r is Ok <==> value <= VARINT_MAX,
            r matches Ok(v) ==> v@ == varint_bytes(value as nat) && v.value() == value && v.wf(),
    {
        match encode_variable_byte_int(value) {
            Ok(data) => {
                proof {
                    varint_value_of_bytes(value as nat);
                }
                Ok(VarByte { data })
            },
            Err(_) => Err(ParseVarByteError),
        }
    }

    /// The encoded bytes.
    pub fn data(&self) -> (r: &Vec<u8>)
        ensures
            r@ == self@,
    {
        &self.data
    }

    /// Decodes the value that the bytes stand for: adds up the seven value
    /// bits of each byte at the weight of its place, up to the byte without
    /// a continuation bit.
    pub fn to_u32(&self) -> (r: u32)
        ensures
            r == self.value(),
            r <= VARINT_MAX,
    {
        proof {
            use_type_invariant(self);
            varint_canonical_unique(self.data@);
        }
        let mut multiplier: u32 = 1;
        let mut v: u32 = 0;
        let mut i: usize = 0;
        loop
            invariant_except_break
                is_canonical_varint(self.data@),
                i < self.data@.len(),
                multiplier == varint_weight(i as int),
                v == varint_value(self.data@.take(i as int)),
            ensures
                v == varint_value(self.data@),
            decreases 4 - i,
        {
            let b: u8 = self.data[i];
            let digit: u8 = b & 127;
            assert(digit == b % 128) by (bit_vector)
                requires
                    digit == b & 127,
            ;
            assert((b & 128 == 0) == (b < 128)) by (bit_vector);
            proof {
                varint_value_extend(self.data@, i as int);
            }
            v = v + (digit as u32) * multiplier;
            i = i + 1;
            if b & 128 == 0 {
                assert(self.data@.take(i as int) =~= self.data@);
                break;
            }
            multiplier = multiplier * 128;
        }
        v
    }
}

impl Clone for VarByte {
    /// A copy with the same bytes.
    fn clone(&self) -> (r: Self)
        ensures
            r@ == self@,
            r.wf(),
    {
        proof {
            use_type_invariant(self);
        }
        VarByte { data: slice_to_vec(self.data.as_slice()) }
    }
}

impl From<VarByte> for u32 {
    /// Decodes the value that `value` stands for.
    fn from(value: VarByte) -> (r: u32) {
        value.to_u32()
    }
}

impl vstd::std_specs::convert::FromSpecImpl<VarByte> for u32 {
    open spec fn obeys_from_spec() -> bool {
        true
    }

    open spec fn from_spec(v: VarByte) -> u32 {
        v.value() as u32
    }
}

} // verus!
