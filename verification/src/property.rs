//! Properties: an identifier, sent as a variable byte integer, and a value
//! whose shape on the wire the identifier decides.

use vstd::prelude::*;
use vstd::slice::slice_to_vec;
use crate::error::CodecError;
use crate::primitives::{
    binary_bytes, binary_round_trip, byte_round_trip, bytes_from, decode_binary, decode_byte,
    decode_string, decode_two_bytes, encode_byte, encode_two_bytes, spec_decode_binary,
    spec_decode_byte, spec_decode_string, spec_decode_two_bytes, string_bytes,
    string_round_trip, text_fits, two_bytes, two_bytes_round_trip,
};
use crate::types::{MQTTBinary, MQTTByte, MQTTString, MQTTTwoBytes, VarByte, MAX_FIELD_LEN};
use crate::varint::{
    decode_variable_byte_int, spec_decode_varint, varint_bytes, varint_canonical_unique,
    varint_decoded_in_range, varint_round_trip, VARINT_MAX,
};

verus! {

/// The shapes that the value of a property can have on the wire.
#[derive(Clone, Copy, Debug, PartialEq, Eq, Structural)]
pub enum ValueKind {
    /// One byte.
    Byte,
    /// A two-byte integer.
    TwoByte,
    /// A variable byte integer.
    VarInt,
    /// A string behind its two-byte length.
    Str,
    /// Binary data behind its two-byte length.
    Binary,
}

/// The protocol's table from property identifier to the shape of the value,
/// for the identifiers whose value has one of the five shapes of
/// [`ValueKind`]. An identifier that is not in the table has no kind.
pub open spec fn spec_property_kind(identifier: nat) -> Option<ValueKind> {
    if identifier == 1 || identifier == 23 || identifier == 25 || identifier == 36 || identifier
        == 37 || identifier == 40 || identifier == 41 || identifier == 42 {
        Some(ValueKind::Byte)
    } else if identifier == 19 || identifier == 33 || identifier == 34 || identifier == 35 {
        Some(ValueKind::TwoByte)
    } else if identifier == 11 {
        Some(ValueKind::VarInt)
    } else if identifier == 3 || identifier == 8 || identifier == 18 || identifier == 21
        || identifier == 26 || identifier == 28 || identifier == 31 {
        Some(ValueKind::Str)
    } else if identifier == 9 || identifier == 22 {
        Some(ValueKind::Binary)
    } else {
        None
    }
}

/// Looks the identifier up in the protocol's table.
pub fn property_kind(identifier: u32) -> (r: Option<ValueKind>)
    ensures
        r == spec_property_kind(identifier as nat),
{
    match identifier {
        1 | 23 | 25 | 36 | 37 | 40 | 41 | 42 => Some(ValueKind::Byte),
        19 | 33 | 34 | 35 => Some(ValueKind::TwoByte),
        11 => Some(ValueKind::VarInt),
        3 | 8 | 18 | 21 | 26 | 28 | 31 => Some(ValueKind::Str),
        9 | 22 => Some(ValueKind::Binary),
        _ => None,
    }
}

/// The value of a property.
#[derive(Debug, PartialEq, Eq)]
pub enum PropertyValue {
    Byte(MQTTByte),
    TwoByte(MQTTTwoBytes),
    VarInt(VarByte),
    Str(MQTTString),
    Binary(MQTTBinary),
}

/// What the value of a property says.
pub enum PropertyValueSpec {
    Byte(u8),
    TwoByte(u16),
    VarInt(nat),
    Str(Seq<char>),
    Binary(Seq<u8>),
}

impl PropertyValueSpec {
    /// The shape of this value on the wire.
    pub open spec fn kind(self) -> ValueKind {
        match self {
            PropertyValueSpec::Byte(_) => ValueKind::Byte,
            PropertyValueSpec::TwoByte(_) => ValueKind::TwoByte,
            PropertyValueSpec::VarInt(_) => ValueKind::VarInt,
            PropertyValueSpec::Str(_) => ValueKind::Str,
            PropertyValueSpec::Binary(_) => ValueKind::Binary,
        }
    }

    /// True when the value can be encoded: a variable byte integer is in
    /// range, a string or binary data fits its two-byte length.
    pub open spec fn wf(self) -> bool {
        match self {
            PropertyValueSpec::Byte(_) => true,
            PropertyValueSpec::TwoByte(_) => true,
            PropertyValueSpec::VarInt(v) => v <= VARINT_MAX,
            PropertyValueSpec::Str(text) => text_fits(text),
            PropertyValueSpec::Binary(data) => data.len() <= MAX_FIELD_LEN,
        }
    }
}

impl View for PropertyValue {
    type V = PropertyValueSpec;

    open spec fn view(&self) -> PropertyValueSpec {
        match self {
            PropertyValue::Byte(v) => PropertyValueSpec::Byte(*v),
            PropertyValue::TwoByte(v) => PropertyValueSpec::TwoByte(*v),
            PropertyValue::VarInt(v) => PropertyValueSpec::VarInt(v.value()),
            PropertyValue::Str(text) => PropertyValueSpec::Str(text@),
            PropertyValue::Binary(data) => PropertyValueSpec::Binary(data@),
        }
    }
}

/// The bytes of a value, each shape in its own encoding.
pub open spec fn value_bytes(value: PropertyValueSpec) -> Seq<u8> {
    match value {
        PropertyValueSpec::Byte(v) => seq![v],
        PropertyValueSpec::TwoByte(v) => two_bytes(v),
        PropertyValueSpec::VarInt(v) => varint_bytes(v),
        PropertyValueSpec::Str(text) => string_bytes(text),
        PropertyValueSpec::Binary(data) => binary_bytes(data),
    }
}

/// What decoding a value of the given shape from the front of `s` gives.
pub open spec fn spec_decode_value(kind: ValueKind, s: Seq<u8>) -> Result<
    (PropertyValueSpec, nat),
    CodecError,
> {
    match kind {
        ValueKind::Byte => match spec_decode_byte(s) {
            Err(e) => Err(e),
            Ok((v, used)) => Ok((PropertyValueSpec::Byte(v), used)),
        },
        ValueKind::TwoByte => match spec_decode_two_bytes(s) {
            Err(e) => Err(e),
            Ok((v, used)) => Ok((PropertyValueSpec::TwoByte(v), used)),
        },
        ValueKind::VarInt => match spec_decode_varint(s) {
            Err(e) => Err(e),
            Ok((v, used)) => Ok((PropertyValueSpec::VarInt(v), used)),
        },
        ValueKind::Str => match spec_decode_string(s) {
            Err(e) => Err(e),
            Ok((text, used)) => Ok((PropertyValueSpec::Str(text), used)),
        },
        ValueKind::Binary => match spec_decode_binary(s) {
            Err(e) => Err(e),
            Ok((data, used)) => Ok((PropertyValueSpec::Binary(data), used)),
        },
    }
}

impl Clone for PropertyValue {
    /// A copy that says the same.
    fn clone(&self) -> (r: Self)
        ensures
            r@ == self@,
    {
        match self {
            PropertyValue::Byte(v) => PropertyValue::Byte(*v),
            PropertyValue::TwoByte(v) => PropertyValue::TwoByte(*v),
            PropertyValue::VarInt(v) => PropertyValue::VarInt(v.clone()),
            PropertyValue::Str(text) => PropertyValue::Str(text.clone()),
            PropertyValue::Binary(data) => PropertyValue::Binary(data.clone()),
        }
    }
}

impl PropertyValue {
    /// The shape of this value on the wire.
    pub fn kind(&self) -> (r: ValueKind)
        ensures
            r == self@.kind(),
    {
        match self {
            PropertyValue::Byte(_) => ValueKind::Byte,
            PropertyValue::TwoByte(_) => ValueKind::TwoByte,
            PropertyValue::VarInt(_) => ValueKind::VarInt,
            PropertyValue::Str(_) => ValueKind::Str,
            PropertyValue::Binary(_) => ValueKind::Binary,
        }
    }

    /// Encodes the value in the encoding of its shape.
    pub fn encode(&self) -> (r: Vec<u8>)
        ensures
            r@ == value_bytes(self@),
            self@.wf(),
    {
        match self {
            PropertyValue::Byte(v) => encode_byte(*v),
            PropertyValue::TwoByte(v) => encode_two_bytes(*v),
            PropertyValue::VarInt(v) => {
                proof {
                    use_type_invariant(v);
                    varint_canonical_unique(v@);
                }
                slice_to_vec(v.data().as_slice())
            },
            PropertyValue::Str(text) => {
                proof {
                    use_type_invariant(text);
                }
                text.encode()
            },
            PropertyValue::Binary(data) => {
                proof {
                    use_type_invariant(data);
                }
                data.encode()
            },
        }
    }

    /// Decodes a value of the given shape from the front of `source` and says
    /// how many bytes it took. Fails as the decoder of that shape does.
    pub fn decode(kind: ValueKind, source: &[u8]) -> (r: Result<(PropertyValue, usize), CodecError>)
        ensures
            match r {
                Ok((value, used)) => spec_decode_value(kind, source@) == Ok::<
                    (PropertyValueSpec, nat),
                    CodecError,
                >((value@, used as nat)),
                Err(e) => spec_decode_value(kind, source@) == Err::<
                    (PropertyValueSpec, nat),
                    CodecError,
                >(e),
            },
    {
        match kind {
            ValueKind::Byte => match decode_byte(source) {
                Err(e) => Err(e),
                Ok((v, used)) => Ok((PropertyValue::Byte(v), used)),
            },
            ValueKind::TwoByte => match decode_two_bytes(source) {
                Err(e) => Err(e),
                Ok((v, used)) => Ok((PropertyValue::TwoByte(v), used)),
            },
            ValueKind::VarInt => match decode_variable_byte_int(source) {
                Err(e) => Err(e),
                Ok((v, used)) => {
                    proof {
                        varint_decoded_in_range(source@);
                    }
                    Ok((PropertyValue::VarInt(VarByte::from(v).unwrap()), used))
                },
            },
            ValueKind::Str => match decode_string(source) {
                Err(e) => Err(e),
                Ok((text, used)) => Ok((PropertyValue::Str(text), used)),
            },
            ValueKind::Binary => match decode_binary(source) {
                Err(e) => Err(e),
                Ok((data, used)) => Ok((PropertyValue::Binary(data), used)),
            },
        }
    }
}

/// A property: an identifier and a value.
#[derive(Debug, PartialEq, Eq)]
pub struct Property {
    pub identifier: VarByte,
    pub value: PropertyValue,
}

/// What a property says.
pub struct PropertySpec {
    pub identifier: nat,
    pub value: PropertyValueSpec,
}

impl PropertySpec {
    /// True when the property can be encoded.
    pub open spec fn wf(self) -> bool {
        self.identifier <= VARINT_MAX && self.value.wf()
    }

    /// True when the identifier is in the protocol's table and the value has
    /// the shape that the table gives for it.
    pub open spec fn in_table(self) -> bool {
        spec_property_kind(self.identifier) == Some(self.value.kind())
    }
}

impl View for Property {
    type V = PropertySpec;

    open spec fn view(&self) -> PropertySpec {
        PropertySpec { identifier: self.identifier.value(), value: self.value@ }
    }
}

/// The bytes of a property: the identifier as a variable byte integer, then
/// the value in its own encoding.
pub open spec fn property_bytes(p: PropertySpec) -> Seq<u8> {
    varint_bytes(p.identifier) + value_bytes(p.value)
}

/// What decoding a property from the front of `s` gives: the identifier is
/// decoded first, then the value in the shape that the protocol's table gives
/// for the identifier.
pub open spec fn spec_decode_property(s: Seq<u8>) -> Result<(PropertySpec, nat), CodecError> {
    match spec_decode_varint(s) {
        Err(e) => Err(e),
        Ok((identifier, n1)) => match spec_property_kind(identifier) {
            None => Err(CodecError::InvalidPropertyIdentifier),
            Some(kind) => match spec_decode_value(kind, s.skip(n1 as int)) {
                Err(e) => Err(e),
                Ok((value, n2)) => Ok((PropertySpec { identifier, value }, n1 + n2)),
            },
        },
    }
}

impl Clone for Property {
    /// A copy that says the same.
    fn clone(&self) -> (r: Self)
        ensures
            r@ == self@,
    {
        Property { identifier: self.identifier.clone(), value: self.value.clone() }
    }
}

impl Property {
    /// Encodes the property: the identifier, then the value.
    pub fn encode(&self) -> (r: Vec<u8>)
        ensures
            r@ == property_bytes(self@),
            self@.wf(),
    {
        proof {
            use_type_invariant(&self.identifier);
            varint_canonical_unique(self.identifier@);
        }
        let mut out: Vec<u8> = slice_to_vec(self.identifier.data().as_slice());
        let mut value = self.value.encode();
        out.append(&mut value);
        out
    }

    /// Decodes a property from the front of `source` and says how many bytes
    /// it took.
    ///
    /// Fails as the variable byte integer decoder does on the identifier, with
    /// `InvalidPropertyIdentifier` where the identifier is not in the
    /// protocol's table, and as the decoder of the value's shape does on the
    /// value.
    pub fn decode(source: &[u8]) -> (r: Result<(Property, usize), CodecError>)
        ensures
            match r {
                Ok((property, used)) => spec_decode_property(source@) == Ok::<
                    (PropertySpec, nat),
                    CodecError,
                >((property@, used as nat)),
                Err(e) => spec_decode_property(source@) == Err::<(PropertySpec, nat), CodecError>(
                    e,
                ),
            },
    {
        let (identifier, n1) = match decode_variable_byte_int(source) {
            Err(e) => { return Err(e); },
            Ok(found) => found,
        };
        proof {
            varint_decoded_in_range(source@);
        }
        let kind = match property_kind(identifier) {
            None => { return Err(CodecError::InvalidPropertyIdentifier); },
            Some(kind) => kind,
        };
        let (value, n2) = match PropertyValue::decode(kind, bytes_from(source, n1)) {
            Err(e) => { return Err(e); },
            Ok(found) => found,
        };
        proof {
            decoded_value_len(kind, source@.skip(n1 as int));
        }
        Ok((Property { identifier: VarByte::from(identifier).unwrap(), value }, n1 + n2))
    }
}

/// A decoded property took at least one byte, and no more bytes than there
/// were.
pub proof fn property_decoded_len(s: Seq<u8>)
    ensures
        spec_decode_property(s) matches Ok((property, used)) ==> 1 <= used <= s.len(),
{
    varint_decoded_in_range(s);
    if let Ok((identifier, n1)) = spec_decode_varint(s) {
        if let Some(kind) = spec_property_kind(identifier) {
            decoded_value_len(kind, s.skip(n1 as int));
        }
    }
}

/// A decoded value took no more bytes than there were.
proof fn decoded_value_len(kind: ValueKind, s: Seq<u8>)
    ensures
        spec_decode_value(kind, s) matches Ok((value, used)) ==> used <= s.len(),
{
    varint_decoded_in_range(s);
}

/// Decoding undoes encoding of a value, whatever bytes follow it.
pub proof fn value_round_trip(value: PropertyValueSpec, rest: Seq<u8>)
    requires
        value.wf(),
    ensures
        spec_decode_value(value.kind(), value_bytes(value) + rest) == Ok::<
            (PropertyValueSpec, nat),
            CodecError,
        >((value, value_bytes(value).len())),
{
    match value {
        PropertyValueSpec::Byte(v) => byte_round_trip(v, rest),
        PropertyValueSpec::TwoByte(v) => two_bytes_round_trip(v, rest),
        PropertyValueSpec::VarInt(v) => varint_round_trip(v, rest),
        PropertyValueSpec::Str(text) => string_round_trip(text, rest),
        PropertyValueSpec::Binary(data) => binary_round_trip(data, rest),
    }
}

/// Decoding undoes encoding of a property: from the bytes of a property that
/// can be encoded and whose value has the shape that the protocol's table
/// gives for its identifier, whatever bytes follow them, the decoder gives
/// back the property and takes exactly its bytes.
pub proof fn property_round_trip(p: PropertySpec, rest: Seq<u8>)
    requires
        p.wf(),
        p.in_table(),
    ensures
        spec_decode_property(property_bytes(p) + rest) == Ok::<(PropertySpec, nat), CodecError>(
            (p, property_bytes(p).len()),
        ),
{
    let head = varint_bytes(p.identifier);
    let tail = value_bytes(p.value) + rest;
    let s = property_bytes(p) + rest;
    assert(s =~= head + tail);
    varint_round_trip(p.identifier, tail);
    assert(s.skip(head.len() as int) =~= tail);
    value_round_trip(p.value, rest);
}

} // verus!
