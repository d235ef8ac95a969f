use mqtt_codec::error::CodecError;

#[test]
fn truncation_is_incomplete() {
    assert!(CodecError::TruncatedInput.is_incomplete());
    assert!(CodecError::TruncatedPacket.is_incomplete());
}

#[test]
fn every_other_failure_is_final() {
    assert!(!CodecError::RangeError.is_incomplete());
    assert!(!CodecError::MalformedVarInt.is_incomplete());
    assert!(!CodecError::InvalidUtf8.is_incomplete());
    assert!(!CodecError::UnknownPacketType.is_incomplete());
    assert!(!CodecError::UnsupportedPacketType.is_incomplete());
    assert!(!CodecError::ExtraTrailingBytes.is_incomplete());
    assert!(!CodecError::InvalidPropertyIdentifier.is_incomplete());
}

#[test]
fn truncated_input_inside_a_packet_is_a_truncated_packet() {
    assert_eq!(CodecError::TruncatedInput.in_packet(), CodecError::TruncatedPacket);
}

#[test]
fn every_other_failure_inside_a_packet_stays_what_it_is() {
    for e in [
        CodecError::RangeError,
        CodecError::MalformedVarInt,
        CodecError::TruncatedPacket,
        CodecError::InvalidUtf8,
        CodecError::UnknownPacketType,
        CodecError::UnsupportedPacketType,
        CodecError::ExtraTrailingBytes,
        CodecError::InvalidPropertyIdentifier,
    ] {
        assert_eq!(e.in_packet(), e);
    }
}
