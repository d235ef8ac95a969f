use mqtt_codec::error::CodecError;
use mqtt_codec::property::{property_kind, Property, PropertyValue, ValueKind};
use mqtt_codec::types::{MQTTBinary, MQTTString, VarByte};

fn property(identifier: u32, value: PropertyValue) -> Property {
    Property { identifier: VarByte::from(identifier).unwrap(), value }
}

fn text(s: &str) -> MQTTString {
    MQTTString::from(String::from(s)).unwrap()
}

#[test]
fn property_table() {
    for id in [1u32, 23, 25, 36, 37, 40, 41, 42] {
        assert_eq!(property_kind(id), Some(ValueKind::Byte));
    }
    for id in [19u32, 33, 34, 35] {
        assert_eq!(property_kind(id), Some(ValueKind::TwoByte));
    }
    assert_eq!(property_kind(11), Some(ValueKind::VarInt));
    for id in [3u32, 8, 18, 21, 26, 28, 31] {
        assert_eq!(property_kind(id), Some(ValueKind::Str));
    }
    for id in [9u32, 22] {
        assert_eq!(property_kind(id), Some(ValueKind::Binary));
    }
}

#[test]
fn property_identifiers_outside_the_table() {
    let known = [
        1u32, 3, 8, 9, 11, 18, 19, 21, 22, 23, 25, 26, 28, 31, 33, 34, 35, 36, 37, 40, 41, 42,
    ];
    for id in 0u32..300 {
        assert_eq!(property_kind(id).is_some(), known.contains(&id));
    }
    assert_eq!(property_kind(268_435_455), None);
    assert_eq!(property_kind(u32::MAX), None);
}

#[test]
fn property_byte() {
    let p = property(1, PropertyValue::Byte(1));
    assert_eq!(p.encode(), vec![0x01, 0x01]);
    assert_eq!(Property::decode(&[0x01, 0x01, 0xFF]), Ok((p, 2)));
}

#[test]
fn property_two_byte() {
    let p = property(33, PropertyValue::TwoByte(0x1234));
    assert_eq!(p.encode(), vec![0x21, 0x12, 0x34]);
    assert_eq!(Property::decode(&[0x21, 0x12, 0x34]), Ok((p, 3)));
}

#[test]
fn property_var_int() {
    let p = property(11, PropertyValue::VarInt(VarByte::from(321).unwrap()));
    assert_eq!(p.encode(), vec![0x0B, 0xC1, 0x02]);
    assert_eq!(Property::decode(&[0x0B, 0xC1, 0x02, 0x00]), Ok((p, 3)));
}

#[test]
fn property_string() {
    let p = property(3, PropertyValue::Str(text("text/plain")));
    let bytes = p.encode();
    assert_eq!(
        bytes,
        vec![0x03, 0x00, 0x0A, b't', b'e', b'x', b't', b'/', b'p', b'l', b'a', b'i', b'n']
    );
    assert_eq!(Property::decode(&bytes), Ok((p, 13)));
}

#[test]
fn property_binary() {
    let p = property(9, PropertyValue::Binary(MQTTBinary::from(vec![0xCA, 0xFE]).unwrap()));
    assert_eq!(p.encode(), vec![0x09, 0x00, 0x02, 0xCA, 0xFE]);
    assert_eq!(Property::decode(&[0x09, 0x00, 0x02, 0xCA, 0xFE]), Ok((p, 5)));
}

#[test]
fn property_value_kinds() {
    assert_eq!(PropertyValue::Byte(0).kind(), ValueKind::Byte);
    assert_eq!(PropertyValue::TwoByte(0).kind(), ValueKind::TwoByte);
    assert_eq!(PropertyValue::VarInt(VarByte::from(0).unwrap()).kind(), ValueKind::VarInt);
    assert_eq!(PropertyValue::Str(MQTTString::new()).kind(), ValueKind::Str);
    assert_eq!(PropertyValue::Binary(MQTTBinary::new()).kind(), ValueKind::Binary);
}

#[test]
fn property_value_of_a_given_kind() {
    assert_eq!(
        PropertyValue::decode(ValueKind::TwoByte, &[0x00, 0x3C, 0x01]),
        Ok((PropertyValue::TwoByte(60), 2))
    );
    assert_eq!(
        PropertyValue::decode(ValueKind::VarInt, &[0x80, 0x01]),
        Ok((PropertyValue::VarInt(VarByte::from(128).unwrap()), 2))
    );
    assert_eq!(
        PropertyValue::decode(ValueKind::Str, &[0x00, 0x01, 0xFF]),
        Err(CodecError::InvalidUtf8)
    );
}

#[test]
fn property_with_an_identifier_outside_the_table_is_refused() {
    assert_eq!(Property::decode(&[0x00, 0x00]), Err(CodecError::InvalidPropertyIdentifier));
    assert_eq!(Property::decode(&[0x7F, 0x00]), Err(CodecError::InvalidPropertyIdentifier));
    // 128 as an identifier of two bytes.
    assert_eq!(Property::decode(&[0x80, 0x01, 0x00]), Err(CodecError::InvalidPropertyIdentifier));
    // The identifier is judged before the value is looked at.
    assert_eq!(Property::decode(&[0x02]), Err(CodecError::InvalidPropertyIdentifier));
}

#[test]
fn property_with_an_incomplete_identifier_is_truncated() {
    assert_eq!(Property::decode(&[]), Err(CodecError::TruncatedInput));
    assert_eq!(Property::decode(&[0x81]), Err(CodecError::TruncatedInput));
}

#[test]
fn property_with_a_malformed_identifier() {
    assert_eq!(
        Property::decode(&[0x81, 0x80, 0x80, 0x80, 0x00]),
        Err(CodecError::MalformedVarInt)
    );
}

#[test]
fn property_with_an_incomplete_value_is_truncated() {
    assert_eq!(Property::decode(&[0x01]), Err(CodecError::TruncatedInput));
    assert_eq!(Property::decode(&[0x21, 0x12]), Err(CodecError::TruncatedInput));
    assert_eq!(Property::decode(&[0x0B, 0x80]), Err(CodecError::TruncatedInput));
    assert_eq!(Property::decode(&[0x03, 0x00, 0x02, b'a']), Err(CodecError::TruncatedInput));
    assert_eq!(Property::decode(&[0x09, 0x00]), Err(CodecError::TruncatedInput));
}

#[test]
fn property_identifier_in_a_longer_form_is_read_for_what_it_spells() {
    let (p, used) = Property::decode(&[0x81, 0x00, 0x07]).unwrap();
    assert_eq!(used, 3);
    assert_eq!(p, property(1, PropertyValue::Byte(7)));
    assert_eq!(p.encode(), vec![0x01, 0x07]);
}

#[test]
fn property_is_encoded_whatever_the_table_says() {
    // Identifier 1 carries a byte in the table; the encoder sends what it is given.
    let p = property(1, PropertyValue::TwoByte(0x0102));
    assert_eq!(p.encode(), vec![0x01, 0x01, 0x02]);
    let p = property(300, PropertyValue::Byte(9));
    assert_eq!(p.encode(), vec![0xAC, 0x02, 0x09]);
}

#[test]
fn property_clone_says_the_same() {
    let p = property(3, PropertyValue::Str(text("a/b")));
    assert_eq!(p.clone(), p);
    assert_eq!(p.value.clone(), p.value);
}
