use mqtt_codec::connect::{ConnectPacket, PASSWORD_FLAG, USERNAME_FLAG, WILL_FLAG};
use mqtt_codec::error::CodecError;
use mqtt_codec::header::{FixedHeader, PacketType};
use mqtt_codec::types::{MQTTBinary, MQTTString};

fn text(s: &str) -> MQTTString {
    MQTTString::from(String::from(s)).unwrap()
}

fn data(d: &[u8]) -> MQTTBinary {
    MQTTBinary::from(d.to_vec()).unwrap()
}

fn full(flags: u8) -> ConnectPacket {
    ConnectPacket {
        protocol_name: text("MQTT"),
        protocol_version: 4,
        flags,
        keepalive: 0x0102,
        client_identifier: text("id"),
        will_topic: text("w/t"),
        will_message: data(&[0xDE, 0xAD]),
        username: text("user"),
        password: data(&[0x70, 0x77]),
    }
}

const SIMPLE_BODY: [u8; 25] = [
    0x00, 0x04, b'M', b'Q', b'T', b'T', 0x04, 0x00, 0x00, 0x3C, 0x00, 0x0D, b'c', b'u', b't',
    b'i', b'e', b'-', b't', b'e', b'a', b'1', b'2', b'3', b'4',
];

#[test]
fn new_simple_holds_the_plain_packet() {
    let p = ConnectPacket::new_simple();
    assert_eq!(p.protocol_name.data(), "MQTT");
    assert_eq!(p.protocol_version, 4);
    assert_eq!(p.flags, 0);
    assert_eq!(p.keepalive, 60);
    assert_eq!(p.client_identifier.data(), "cutie-tea1234");
    assert_eq!(p.will_topic.data(), "");
    assert_eq!(p.will_message.data(), &Vec::<u8>::new());
    assert_eq!(p.username.data(), "");
    assert_eq!(p.password.data(), &Vec::<u8>::new());
}

#[test]
fn connect_encode_plain_packet() {
    let bytes = ConnectPacket::new_simple().pack();
    assert_eq!(bytes[0], 0x10);
    // One length byte, which counts the 25 bytes that follow it.
    assert_eq!(bytes[1], 25);
    assert_eq!(bytes.len(), 2 + 25);
    assert_eq!(&bytes[2..], &SIMPLE_BODY[..]);
}

#[test]
fn connect_body_of_the_plain_packet() {
    assert_eq!(ConnectPacket::new_simple().encode_body(), SIMPLE_BODY.to_vec());
}

#[test]
fn connect_remaining_length_is_the_length_of_the_body() {
    for flags in [0u8, WILL_FLAG, USERNAME_FLAG, PASSWORD_FLAG, 0xC4, 0xFF] {
        let p = full(flags);
        let body = p.encode_body();
        let header = p.fixed_header();
        assert_eq!(header.packet_type, PacketType::Connect);
        assert_eq!(header.flags, 0);
        assert_eq!(header.remaining_length as usize, body.len());
        let bytes = p.encode();
        let (decoded, used) = FixedHeader::decode(&bytes).unwrap();
        assert_eq!(decoded, header);
        assert_eq!(&bytes[used..], &body[..]);
        assert_eq!(p.pack(), bytes);
    }
}

#[test]
fn connect_fields_that_no_flag_announces_are_not_sent() {
    let body = full(0).encode_body();
    assert_eq!(
        body,
        vec![0x00, 0x04, b'M', b'Q', b'T', b'T', 0x04, 0x00, 0x01, 0x02, 0x00, 0x02, b'i', b'd']
    );
}

#[test]
fn connect_will_is_sent_behind_the_client_identifier() {
    let body = full(WILL_FLAG).encode_body();
    assert_eq!(
        body,
        vec![
            0x00, 0x04, b'M', b'Q', b'T', b'T', 0x04, 0x04, 0x01, 0x02, 0x00, 0x02, b'i', b'd',
            0x00, 0x03, b'w', b'/', b't', 0x00, 0x02, 0xDE, 0xAD,
        ]
    );
}

#[test]
fn connect_username_and_password_are_sent_last() {
    let body = full(USERNAME_FLAG | PASSWORD_FLAG).encode_body();
    assert_eq!(
        body,
        vec![
            0x00, 0x04, b'M', b'Q', b'T', b'T', 0x04, 0xC0, 0x01, 0x02, 0x00, 0x02, b'i', b'd',
            0x00, 0x04, b'u', b's', b'e', b'r', 0x00, 0x02, 0x70, 0x77,
        ]
    );
}

#[test]
fn connect_every_announced_field_in_order() {
    let body = full(WILL_FLAG | USERNAME_FLAG | PASSWORD_FLAG).encode_body();
    assert_eq!(
        body,
        vec![
            0x00, 0x04, b'M', b'Q', b'T', b'T', 0x04, 0xC4, 0x01, 0x02, 0x00, 0x02, b'i', b'd',
            0x00, 0x03, b'w', b'/', b't', 0x00, 0x02, 0xDE, 0xAD, 0x00, 0x04, b'u', b's', b'e',
            b'r', 0x00, 0x02, 0x70, 0x77,
        ]
    );
}

#[test]
fn connect_decode_undoes_encode_of_the_plain_packet() {
    let decoded = ConnectPacket::decode_body(&SIMPLE_BODY).unwrap();
    assert_eq!(decoded, ConnectPacket::new_simple());
}

#[test]
fn connect_decode_undoes_encode_for_every_choice_of_fields() {
    for flags in [0u8, 0x02, WILL_FLAG, USERNAME_FLAG, PASSWORD_FLAG, 0x44, 0x84, 0xC0, 0xC4, 0xFF]
    {
        let p = full(flags);
        let decoded = ConnectPacket::decode_body(&p.encode_body()).unwrap();
        assert_eq!(decoded.protocol_name, p.protocol_name);
        assert_eq!(decoded.protocol_version, p.protocol_version);
        assert_eq!(decoded.flags, p.flags);
        assert_eq!(decoded.keepalive, p.keepalive);
        assert_eq!(decoded.client_identifier, p.client_identifier);
        if flags & WILL_FLAG != 0 {
            assert_eq!(decoded.will_topic, p.will_topic);
            assert_eq!(decoded.will_message, p.will_message);
        } else {
            assert_eq!(decoded.will_topic, MQTTString::new());
            assert_eq!(decoded.will_message, MQTTBinary::new());
        }
        if flags & USERNAME_FLAG != 0 {
            assert_eq!(decoded.username, p.username);
        } else {
            assert_eq!(decoded.username, MQTTString::new());
        }
        if flags & PASSWORD_FLAG != 0 {
            assert_eq!(decoded.password, p.password);
        } else {
            assert_eq!(decoded.password, MQTTBinary::new());
        }
        assert_eq!(decoded.encode_body(), p.encode_body());
    }
}

#[test]
fn connect_body_cut_short_is_a_truncated_packet() {
    let body = full(WILL_FLAG | USERNAME_FLAG | PASSWORD_FLAG).encode_body();
    for len in 0..body.len() {
        assert_eq!(
            ConnectPacket::decode_body(&body[..len]),
            Err(CodecError::TruncatedPacket),
            "cut to {} bytes",
            len
        );
    }
    assert!(ConnectPacket::decode_body(&body).is_ok());
}

#[test]
fn connect_body_with_an_announced_field_missing_is_a_truncated_packet() {
    // The flags announce a user name, and the body ends behind the client identifier.
    let body = [0x00, 0x04, b'M', b'Q', b'T', b'T', 0x04, 0x80, 0x00, 0x3C, 0x00, 0x01, b'a'];
    assert_eq!(ConnectPacket::decode_body(&body), Err(CodecError::TruncatedPacket));
}

#[test]
fn connect_body_with_bytes_behind_the_last_field_is_refused() {
    let mut body = SIMPLE_BODY.to_vec();
    body.push(0x00);
    assert_eq!(ConnectPacket::decode_body(&body), Err(CodecError::ExtraTrailingBytes));
}

#[test]
fn connect_body_with_a_field_that_no_flag_announces_is_refused() {
    // A user name is there, and the flags do not announce it.
    let mut body = SIMPLE_BODY.to_vec();
    body.extend_from_slice(&[0x00, 0x01, b'u']);
    assert_eq!(ConnectPacket::decode_body(&body), Err(CodecError::ExtraTrailingBytes));
}

#[test]
fn connect_body_with_a_string_that_is_not_utf8_is_refused() {
    let body = [0x00, 0x01, 0xFF, 0x04, 0x00, 0x00, 0x3C, 0x00, 0x00];
    assert_eq!(ConnectPacket::decode_body(&body), Err(CodecError::InvalidUtf8));
    let body = [0x00, 0x01, b'M', 0x04, 0x00, 0x00, 0x3C, 0x00, 0x01, 0xC0];
    assert_eq!(ConnectPacket::decode_body(&body), Err(CodecError::InvalidUtf8));
}

#[test]
fn connect_with_the_largest_fields_is_encoded() {
    let p = ConnectPacket {
        protocol_name: text(&"n".repeat(65_535)),
        protocol_version: 4,
        flags: 0xC4,
        keepalive: 0,
        client_identifier: text(&"c".repeat(65_535)),
        will_topic: text(&"t".repeat(65_535)),
        will_message: data(&vec![1u8; 65_535]),
        username: text(&"u".repeat(65_535)),
        password: data(&vec![2u8; 65_535]),
    };
    let bytes = p.encode();
    // 393,226 is 0x6000A: the length takes three bytes.
    assert_eq!(&bytes[..4], &[0x10, 0x8A, 0x80, 0x18]);
    assert_eq!(bytes.len(), 4 + 393_226);
    assert_eq!(ConnectPacket::decode_body(&bytes[4..]), Ok(p));
}

#[test]
fn connect_fields_are_told_only_where_a_flag_announces_them() {
    let p = full(0);
    assert_eq!(p.will(), None);
    assert_eq!(p.username(), None);
    assert_eq!(p.password(), None);
    let p = full(WILL_FLAG);
    assert_eq!(p.will(), Some((&text("w/t"), &data(&[0xDE, 0xAD]))));
    assert_eq!(p.username(), None);
    assert_eq!(p.password(), None);
    let p = full(USERNAME_FLAG | PASSWORD_FLAG);
    assert_eq!(p.will(), None);
    assert_eq!(p.username(), Some(&text("user")));
    assert_eq!(p.password(), Some(&data(&[0x70, 0x77])));
}

#[test]
fn connect_body_len_counts_the_fields_that_are_sent() {
    assert_eq!(ConnectPacket::new_simple().body_len(), 25);
    assert_eq!(full(0).body_len(), 14);
    assert_eq!(full(WILL_FLAG).body_len(), 23);
    assert_eq!(full(USERNAME_FLAG).body_len(), 20);
    assert_eq!(full(PASSWORD_FLAG).body_len(), 18);
    for flags in 0u8..=255 {
        let p = full(flags);
        assert_eq!(p.body_len() as usize, p.encode_body().len());
    }
}
