//! The CONNECT packet: its variable header, its payload with the fields that
//! the connect flags announce, and its bytes on the wire.

use vstd::prelude::*;
use vstd::utf8::encode_utf8;
use crate::error::CodecError;
use crate::header::{fixed_header_bytes, FixedHeader, PacketType};
use crate::primitives::{
    binary_bytes, binary_round_trip, byte_round_trip, bytes_from, decode_binary, decode_byte,
    decode_string, decode_two_bytes, decoded_field_fits, spec_decode_binary, spec_decode_byte,
    spec_decode_string, spec_decode_two_bytes, string_bytes, string_round_trip, text_fits,
    two_bytes, two_bytes_round_trip,
};
use crate::types::{MQTTBinary, MQTTByte, MQTTString, MQTTTwoBytes, MAX_FIELD_LEN};

verus! {

/// The connect flag that announces a will topic and a will message.
pub const WILL_FLAG: u8 = 0x04;

/// The connect flag that announces a password.
pub const PASSWORD_FLAG: u8 = 0x40;

/// The connect flag that announces a user name.
pub const USERNAME_FLAG: u8 = 0x80;

/// True when the connect flags announce a will.
pub open spec fn has_will(flags: u8) -> bool {
    flags & WILL_FLAG != 0
}

/// True when the connect flags announce a user name.
pub open spec fn has_username(flags: u8) -> bool {
    flags & USERNAME_FLAG != 0
}

/// True when the connect flags announce a password.
pub open spec fn has_password(flags: u8) -> bool {
    flags & PASSWORD_FLAG != 0
}

/// What a CONNECT packet says: the fields of its variable header, the client
/// identifier, and the will, user name and password where the connect flags
/// announce them.
pub struct ConnectSpec {
    pub protocol_name: Seq<char>,
    pub protocol_version: u8,
    pub flags: u8,
    pub keepalive: u16,
    pub client_identifier: Seq<char>,
    pub will: Option<(Seq<char>, Seq<u8>)>,
    pub username: Option<Seq<char>>,
    pub password: Option<Seq<u8>>,
}

impl ConnectSpec {
    /// True when the packet can be sent: every string and every binary field
    /// fits its two-byte length, and the will, the user name and the password
    /// are there exactly when the connect flags announce them.
    pub open spec fn wf(self) -> bool {
        &&& text_fits(self.protocol_name)
        &&& text_fits(self.client_identifier)
        &&& self.will is Some <==> has_will(self.flags)
        &&& self.username is Some <==> has_username(self.flags)
        &&& self.password is Some <==> has_password(self.flags)
        &&& self.will matches Some((topic, message)) ==> text_fits(topic) && message.len()
            <= MAX_FIELD_LEN
        &&& self.username matches Some(name) ==> text_fits(name)
        &&& self.password matches Some(word) ==> word.len() <= MAX_FIELD_LEN
    }
}

/// The bytes of a will: the topic as a string, then the message as binary
/// data; none where there is no will.
pub open spec fn will_bytes(will: Option<(Seq<char>, Seq<u8>)>) -> Seq<u8> {
    match will {
        Some((topic, message)) => string_bytes(topic) + binary_bytes(message),
        None => Seq::empty(),
    }
}

/// The bytes of a string that may be absent.
pub open spec fn optional_string_bytes(text: Option<Seq<char>>) -> Seq<u8> {
    match text {
        Some(t) => string_bytes(t),
        None => Seq::empty(),
    }
}

/// The bytes of binary data that may be absent.
pub open spec fn optional_binary_bytes(data: Option<Seq<u8>>) -> Seq<u8> {
    match data {
        Some(d) => binary_bytes(d),
        None => Seq::empty(),
    }
}

/// The variable header of a CONNECT packet: protocol name, protocol version,
/// connect flags, keep-alive.
pub open spec fn connect_variable_header_bytes(c: ConnectSpec) -> Seq<u8> {
    string_bytes(c.protocol_name) + seq![c.protocol_version] + seq![c.flags] + two_bytes(
        c.keepalive,
    )
}

/// The payload of a CONNECT packet: the client identifier, then the will, the
/// user name and the password, each only where it is there.
pub open spec fn connect_payload_bytes(c: ConnectSpec) -> Seq<u8> {
    string_bytes(c.client_identifier) + will_bytes(c.will) + optional_string_bytes(c.username)
        + optional_binary_bytes(c.password)
}

/// Everything of a CONNECT packet behind its fixed header.
pub open spec fn connect_body_bytes(c: ConnectSpec) -> Seq<u8> {
    connect_variable_header_bytes(c) + connect_payload_bytes(c)
}

/// The fixed header that goes before a CONNECT packet: its remaining length
/// is the length of the packet's body, whatever that is.
pub open spec fn connect_fixed_header(c: ConnectSpec) -> FixedHeader {
    FixedHeader {
        packet_type: PacketType::Connect,
        flags: 0,
        remaining_length: connect_body_bytes(c).len() as u32,
    }
}

/// A whole CONNECT packet on the wire: fixed header, then body.
pub open spec fn connect_packet_bytes(c: ConnectSpec) -> Seq<u8> {
    fixed_header_bytes(connect_fixed_header(c)) + connect_body_bytes(c)
}

/// The body of a packet that can be sent is short enough for a remaining
/// length: it has at least 8 and at most 393,226 bytes.
pub proof fn connect_body_len_bounded(c: ConnectSpec)
    requires
        c.wf(),
    ensures
        8 <= connect_body_bytes(c).len() <= 393_226,
        connect_fixed_header(c).wf(),
{
    assert(string_bytes(c.protocol_name).len() == 2 + encode_utf8(c.protocol_name).len());
    assert(string_bytes(c.client_identifier).len() == 2 + encode_utf8(
        c.client_identifier,
    ).len());
    assert(connect_variable_header_bytes(c).len() == string_bytes(c.protocol_name).len() + 4);
    assert(will_bytes(c.will).len() <= 2 * (2 + MAX_FIELD_LEN));
    assert(optional_string_bytes(c.username).len() <= 2 + MAX_FIELD_LEN);
    assert(optional_binary_bytes(c.password).len() <= 2 + MAX_FIELD_LEN);
}

/// What decoding the variable header of a CONNECT packet from the front of
/// `s` gives: protocol name, protocol version, connect flags and keep-alive,
/// and the number of bytes they took.
pub open spec fn spec_decode_connect_variable_header(s: Seq<u8>) -> Result<
    ((Seq<char>, u8, u8, u16), nat),
    CodecError,
> {
    match spec_decode_string(s) {
        Err(e) => Err(e),
        Ok((protocol_name, n1)) => match spec_decode_byte(s.skip(n1 as int)) {
            Err(e) => Err(e),
            Ok((protocol_version, n2)) => match spec_decode_byte(s.skip((n1 + n2) as int)) {
                Err(e) => Err(e),
                Ok((flags, n3)) => match spec_decode_two_bytes(s.skip((n1 + n2 + n3) as int)) {
                    Err(e) => Err(e),
                    Ok((keepalive, n4)) => Ok(
                        ((protocol_name, protocol_version, flags, keepalive), n1 + n2 + n3 + n4),
                    ),
                },
            },
        },
    }
}

/// What decoding a will from the front of `s` gives: topic and message where
/// a will is announced, and nothing, from no bytes, where none is.
pub open spec fn spec_decode_will(present: bool, s: Seq<u8>) -> Result<
    (Option<(Seq<char>, Seq<u8>)>, nat),
    CodecError,
> {
    if !present {
        Ok((None, 0))
    } else {
        match spec_decode_string(s) {
            Err(e) => Err(e),
            Ok((topic, n1)) => match spec_decode_binary(s.skip(n1 as int)) {
                Err(e) => Err(e),
                Ok((message, n2)) => Ok((Some((topic, message)), n1 + n2)),
            },
        }
    }
}

/// What decoding a string that may be absent gives.
pub open spec fn spec_decode_optional_string(present: bool, s: Seq<u8>) -> Result<
    (Option<Seq<char>>, nat),
    CodecError,
> {
    if !present {
        Ok((None, 0))
    } else {
        match spec_decode_string(s) {
            Err(e) => Err(e),
            Ok((text, used)) => Ok((Some(text), used)),
        }
    }
}

/// What decoding binary data that may be absent gives.
pub open spec fn spec_decode_optional_binary(present: bool, s: Seq<u8>) -> Result<
    (Option<Seq<u8>>, nat),
    CodecError,
> {
    if !present {
        Ok((None, 0))
    } else {
        match spec_decode_binary(s) {
            Err(e) => Err(e),
            Ok((data, used)) => Ok((Some(data), used)),
        }
    }
}

/// What decoding the payload of a CONNECT packet from the front of `s` gives
/// under the given connect flags: the client identifier, then the will, the
/// user name and the password, each only where its flag is set.
pub open spec fn spec_decode_connect_payload(flags: u8, s: Seq<u8>) -> Result<
    ((Seq<char>, Option<(Seq<char>, Seq<u8>)>, Option<Seq<char>>, Option<Seq<u8>>), nat),
    CodecError,
> {
    match spec_decode_string(s) {
        Err(e) => Err(e),
        Ok((client_identifier, n1)) => match spec_decode_will(
            has_will(flags),
            s.skip(n1 as int),
        ) {
            Err(e) => Err(e),
            Ok((will, n2)) => match spec_decode_optional_string(
                has_username(flags),
                s.skip((n1 + n2) as int),
            ) {
                Err(e) => Err(e),
                Ok((username, n3)) => match spec_decode_optional_binary(
                    has_password(flags),
                    s.skip((n1 + n2 + n3) as int),
                ) {
                    Err(e) => Err(e),
                    Ok((password, n4)) => Ok(
                        ((client_identifier, will, username, password), n1 + n2 + n3 + n4),
                    ),
                },
            },
        },
    }
}

/// What decoding the body of a CONNECT packet gives, where `s` is the body
/// and nothing else: the fields in their order on the wire. A field that
/// runs past the end of `s` makes the packet truncated; bytes behind the last
/// field are refused.
pub open spec fn spec_decode_connect_body(s: Seq<u8>) -> Result<ConnectSpec, CodecError> {
    match spec_decode_connect_variable_header(s) {
        Err(e) => Err(e.spec_in_packet()),
        Ok(((protocol_name, protocol_version, flags, keepalive), n1)) => {
            match spec_decode_connect_payload(flags, s.skip(n1 as int)) {
                Err(e) => Err(e.spec_in_packet()),
                Ok(((client_identifier, will, username, password), n2)) => if n1 + n2 < s.len() {
                    Err(CodecError::ExtraTrailingBytes)
                } else {
                    Ok(
                        ConnectSpec {
                            protocol_name,
                            protocol_version,
                            flags,
                            keepalive,
                            client_identifier,
                            will,
                            username,
                            password,
                        },
                    )
                },
            }
        },
    }
}

/// Decodes the variable header of a CONNECT packet.
fn decode_connect_variable_header(source: &[u8]) -> (r: Result<
    (MQTTString, MQTTByte, MQTTByte, MQTTTwoBytes, usize),
    CodecError,
>)
    ensures
        match r {
            Ok((protocol_name, protocol_version, flags, keepalive, used)) => {
                &&& spec_decode_connect_variable_header(source@) == Ok::<
                    ((Seq<char>, u8, u8, u16), nat),
                    CodecError,
                >(((protocol_name@, protocol_version, flags, keepalive), used as nat))
                &&& used <= source@.len()
            },
            Err(e) => spec_decode_connect_variable_header(source@) == Err::<
                ((Seq<char>, u8, u8, u16), nat),
                CodecError,
            >(e),
        },
{
    let (protocol_name, n1) = match decode_string(source) {
        Err(e) => { return Err(e); },
        Ok(found) => found,
    };
    let (protocol_version, n2) = match decode_byte(bytes_from(source, n1)) {
        Err(e) => { return Err(e); },
        Ok(found) => found,
    };
    let (flags, n3) = match decode_byte(bytes_from(source, n1 + n2)) {
        Err(e) => { return Err(e); },
        Ok(found) => found,
    };
    let (keepalive, n4) = match decode_two_bytes(bytes_from(source, n1 + n2 + n3)) {
        Err(e) => { return Err(e); },
        Ok(found) => found,
    };
    Ok((protocol_name, protocol_version, flags, keepalive, n1 + n2 + n3 + n4))
}

/// Decodes a will where one is announced; gives an empty topic and an empty
/// message, from no bytes, where none is.
fn decode_will(present: bool, source: &[u8]) -> (r: Result<
    (MQTTString, MQTTBinary, usize),
    CodecError,
>)
    ensures
        match r {
            Ok((topic, message, used)) => {
                &&& spec_decode_will(present, source@) == Ok::<
                    (Option<(Seq<char>, Seq<u8>)>, nat),
                    CodecError,
                >(
                    (
                        if present {
                            Some((topic@, message@))
                        } else {
                            None
                        },
                        used as nat,
                    ),
                )
                &&& used <= source@.len()
            },
            Err(e) => spec_decode_will(present, source@) == Err::<
                (Option<(Seq<char>, Seq<u8>)>, nat),
                CodecError,
            >(e),
        },
{
    if !present {
        return Ok((MQTTString::new(), MQTTBinary::new(), 0));
    }
    let (topic, n1) = match decode_string(source) {
        Err(e) => { return Err(e); },
        Ok(found) => found,
    };
    let (message, n2) = match decode_binary(bytes_from(source, n1)) {
        Err(e) => { return Err(e); },
        Ok(found) => found,
    };
    Ok((topic, message, n1 + n2))
}

/// Decodes a string where one is announced; gives the empty string, from no
/// bytes, where none is.
fn decode_optional_string(present: bool, source: &[u8]) -> (r: Result<
    (MQTTString, usize),
    CodecError,
>)
    ensures
        match r {
            Ok((text, used)) => {
                &&& spec_decode_optional_string(present, source@) == Ok::<
                    (Option<Seq<char>>, nat),
                    CodecError,
                >((if present {
                    Some(text@)
                } else {
                    None
                }, used as nat))
                &&& used <= source@.len()
            },
            Err(e) => spec_decode_optional_string(present, source@) == Err::<
                (Option<Seq<char>>, nat),
                CodecError,
            >(e),
        },
{
    if !present {
        return Ok((MQTTString::new(), 0));
    }
    decode_string(source)
}

/// Decodes binary data where it is announced; gives no data, from no bytes,
/// where it is not.
fn decode_optional_binary(present: bool, source: &[u8]) -> (r: Result<
    (MQTTBinary, usize),
    CodecError,
>)
    ensures
        match r {
            Ok((data, used)) => {
                &&& spec_decode_optional_binary(present, source@) == Ok::<
                    (Option<Seq<u8>>, nat),
                    CodecError,
                >((if present {
                    Some(data@)
                } else {
                    None
                }, used as nat))
                &&& used <= source@.len()
            },
            Err(e) => spec_decode_optional_binary(present, source@) == Err::<
                (Option<Seq<u8>>, nat),
                CodecError,
            >(e),
        },
{
    if !present {
        return Ok((MQTTBinary::new(), 0));
    }
    decode_binary(source)
}

/// A CONNECT packet.
///
/// The will topic and message, the user name and the password are part of
/// the packet only where the connect flags announce them; where they do not,
/// what these fields hold is neither sent nor told by [`ConnectPacket::view`].
#[derive(Debug, PartialEq, Eq)]
pub struct ConnectPacket {
    pub protocol_name: MQTTString,
    pub protocol_version: MQTTByte,
    pub flags: MQTTByte,
    pub keepalive: MQTTTwoBytes,
    pub client_identifier: MQTTString,
    pub will_topic: MQTTString,
    pub will_message: MQTTBinary,
    pub username: MQTTString,
    pub password: MQTTBinary,
}

impl View for ConnectPacket {
    type V = ConnectSpec;

    open spec fn view(&self) -> ConnectSpec {
        ConnectSpec {
            protocol_name: self.protocol_name@,
            protocol_version: self.protocol_version,
            flags: self.flags,
            keepalive: self.keepalive,
            client_identifier: self.client_identifier@,
            will: if has_will(self.flags) {
                Some((self.will_topic@, self.will_message@))
            } else {
                None
            },
            username: if has_username(self.flags) {
                Some(self.username@)
            } else {
                None
            },
            password: if has_password(self.flags) {
                Some(self.password@)
            } else {
                None
            },
        }
    }
}

impl Clone for ConnectPacket {
    /// A copy that says the same.
    fn clone(&self) -> (r: Self)
        ensures
            r@ == self@,
    {
        ConnectPacket {
            protocol_name: self.protocol_name.clone(),
            protocol_version: self.protocol_version,
            flags: self.flags,
            keepalive: self.keepalive,
            client_identifier: self.client_identifier.clone(),
            will_topic: self.will_topic.clone(),
            will_message: self.will_message.clone(),
            username: self.username.clone(),
            password: self.password.clone(),
        }
    }
}

impl ConnectPacket {
    /// Encodes everything of the packet behind its fixed header.
    pub fn encode_body(&self) -> (r: Vec<u8>)
        ensures
            r@ == connect_body_bytes(self@),
            self@.wf(),
    {
        proof {
            use_type_invariant(&self.protocol_name);
            use_type_invariant(&self.client_identifier);
            use_type_invariant(&self.will_topic);
            use_type_invariant(&self.will_message);
            use_type_invariant(&self.username);
            use_type_invariant(&self.password);
        }
        let mut body: Vec<u8> = self.protocol_name.encode();
        body.push(self.protocol_version);
        body.push(self.flags);
        body.push((self.keepalive >> 8) as u8);
        body.push(self.keepalive as u8);
        let mut client_identifier = self.client_identifier.encode();
        body.append(&mut client_identifier);
        assert(body@ == connect_variable_header_bytes(self@) + string_bytes(
            self.client_identifier@,
        )) by {
            let k = self.keepalive;
            assert((k >> 8) as u8 == k / 256 && k as u8 == k % 256) by (bit_vector);
        }
        if self.flags & WILL_FLAG != 0 {
            let mut topic = self.will_topic.encode();
            let mut message = self.will_message.encode();
            body.append(&mut topic);
            body.append(&mut message);
        }
        assert(body@ == connect_variable_header_bytes(self@) + (string_bytes(
            self.client_identifier@,
        ) + will_bytes(self@.will)));
        if self.flags & USERNAME_FLAG != 0 {
            let mut username = self.username.encode();
            body.append(&mut username);
        }
        assert(body@ == connect_variable_header_bytes(self@) + (string_bytes(
            self.client_identifier@,
        ) + will_bytes(self@.will) + optional_string_bytes(self@.username)));
        if self.flags & PASSWORD_FLAG != 0 {
            let mut password = self.password.encode();
            body.append(&mut password);
        }
        body
    }

    /// Decodes the body of a CONNECT packet, where `body` is everything behind
    /// the fixed header, as long as the remaining length says, and no more.
    ///
    /// The fields are read in their order on the wire; will, user name and
    /// password only where the connect flags announce them. Fails with
    /// `TruncatedPacket` where a field runs past the end of `body`, with
    /// `InvalidUtf8` where a string is not valid UTF-8, and with
    /// `ExtraTrailingBytes` where bytes are left behind the last field.
    pub fn decode_body(body: &[u8]) -> (r: Result<ConnectPacket, CodecError>)
        ensures
            match r {
                Ok(packet) => spec_decode_connect_body(body@) == Ok::<ConnectSpec, CodecError>(
                    packet@,
                ),
                Err(e) => spec_decode_connect_body(body@) == Err::<ConnectSpec, CodecError>(e),
            },
    {
        let (protocol_name, protocol_version, flags, keepalive, n1) =
            match decode_connect_variable_header(body) {
            Err(e) => { return Err(e.in_packet()); },
            Ok(found) => found,
        };
        let payload = bytes_from(body, n1);
        let (client_identifier, m1) = match decode_string(payload) {
            Err(e) => { return Err(e.in_packet()); },
            Ok(found) => found,
        };
        let (will_topic, will_message, m2) = match decode_will(
            flags & WILL_FLAG != 0,
            bytes_from(payload, m1),
        ) {
            Err(e) => { return Err(e.in_packet()); },
            Ok(found) => found,
        };
        let (username, m3) = match decode_optional_string(
            flags & USERNAME_FLAG != 0,
            bytes_from(payload, m1 + m2),
        ) {
            Err(e) => { return Err(e.in_packet()); },
            Ok(found) => found,
        };
        let (password, m4) = match decode_optional_binary(
            flags & PASSWORD_FLAG != 0,
            bytes_from(payload, m1 + m2 + m3),
        ) {
            Err(e) => { return Err(e.in_packet()); },
            Ok(found) => found,
        };
        if n1 + (m1 + m2 + m3 + m4) < body.len() {
            return Err(CodecError::ExtraTrailingBytes);
        }
        Ok(
            ConnectPacket {
                protocol_name,
                protocol_version,
                flags,
                keepalive,
                client_identifier,
                will_topic,
                will_message,
                username,
                password,
            },
        )
    }

    /// The will topic and the will message, where the connect flags announce
    /// a will.
    pub fn will(&self) -> (r: Option<(&MQTTString, &MQTTBinary)>)
        ensures
            match r {
                Some((topic, message)) => self@.will == Some((topic@, message@)),
                None => self@.will is None,
            },
    {
        if self.flags & WILL_FLAG != 0 {
            Some((&self.will_topic, &self.will_message))
        } else {
            None
        }
    }

    /// The user name, where the connect flags announce one.
    pub fn username(&self) -> (r: Option<&MQTTString>)
        ensures
            match r {
                Some(name) => self@.username == Some(name@),
                None => self@.username is None,
            },
    {
        if self.flags & USERNAME_FLAG != 0 {
            Some(&self.username)
        } else {
            None
        }
    }

    /// The password, where the connect flags announce one.
    pub fn password(&self) -> (r: Option<&MQTTBinary>)
        ensures
            match r {
                Some(word) => self@.password == Some(word@),
                None => self@.password is None,
            },
    {
        if self.flags & PASSWORD_FLAG != 0 {
            Some(&self.password)
        } else {
            None
        }
    }

    /// The number of bytes of the packet behind its fixed header.
    pub fn body_len(&self) -> (r: u32)
        ensures
            r == connect_body_bytes(self@).len(),
            self@.wf(),
    {
        proof {
            use_type_invariant(&self.protocol_name);
            use_type_invariant(&self.client_identifier);
            use_type_invariant(&self.will_topic);
            use_type_invariant(&self.will_message);
            use_type_invariant(&self.username);
            use_type_invariant(&self.password);
            connect_body_len_bounded(self@);
        }
        let mut n: u32 = 2 + self.protocol_name.len() as u32 + 4;
        n = n + 2 + self.client_identifier.len() as u32;
        if self.flags & WILL_FLAG != 0 {
            n = n + 2 + self.will_topic.len() as u32 + 2 + self.will_message.len() as u32;
        }
        if self.flags & USERNAME_FLAG != 0 {
            n = n + 2 + self.username.len() as u32;
        }
        if self.flags & PASSWORD_FLAG != 0 {
            n = n + 2 + self.password.len() as u32;
        }
        n
    }

    /// The fixed header that goes before this packet.
    pub fn fixed_header(&self) -> (r: FixedHeader)
        ensures
            r == connect_fixed_header(self@),
            r.wf(),
    {
        FixedHeader {
            packet_type: PacketType::Connect,
            flags: 0,
            remaining_length: self.body_len(),
        }
    }

    /// Encodes the whole packet, and with that uses it up.
    pub fn pack(self) -> (r: Vec<u8>)
        ensures
            r@ == connect_packet_bytes(self@),
            self@.wf(),
    {
        self.encode()
    }

    /// Encodes the whole packet: the fixed header, whose remaining length is
    /// the length of the body, then the body.
    pub fn encode(&self) -> (r: Vec<u8>)
        ensures
            r@ == connect_packet_bytes(self@),
            self@.wf(),
    {
        let mut body = self.encode_body();
        proof {
            connect_body_len_bounded(self@);
        }
        let header = FixedHeader {
            packet_type: PacketType::Connect,
            flags: 0,
            remaining_length: body.len() as u32,
        };
        let mut bytes = header.encode().unwrap();
        bytes.append(&mut body);
        bytes
    }

    /// A plain CONNECT packet: protocol "MQTT" in version 4, no connect flags,
    /// a keep-alive of 60 seconds and the client identifier "cutie-tea1234".
    pub fn new_simple() -> (r: Self)
        ensures
            r@ == (ConnectSpec {
                protocol_name: "MQTT"@,
                protocol_version: 4,
                flags: 0,
                keepalive: 60,
                client_identifier: "cutie-tea1234"@,
                will: None,
                username: None,
                password: None,
            }),
            r@.wf(),
    {
        proof {
            reveal_strlit("MQTT");
            reveal_strlit("cutie-tea1234");
            vstd::utf8::is_ascii_chars_encode_utf8("MQTT"@);
            vstd::utf8::is_ascii_chars_encode_utf8("cutie-tea1234"@);
            assert(0u8 & 0x04 == 0 && 0u8 & 0x40 == 0 && 0u8 & 0x80 == 0) by (bit_vector);
        }
        ConnectPacket {
            protocol_name: MQTTString::from("MQTT".to_owned()).unwrap(),
            protocol_version: 4u8,
            flags: 0,
            keepalive: 60,
            client_identifier: MQTTString::from("cutie-tea1234".to_owned()).unwrap(),
            will_topic: MQTTString::new(),
            will_message: MQTTBinary::new(),
            username: MQTTString::new(),
            password: MQTTBinary::new(),
        }
    }
}

/// Where four fields stand one behind the other before `rest`, skipping the
/// first one, two or three of them leaves the others and `rest`.
proof fn four_fields_skip(a: Seq<u8>, b: Seq<u8>, c: Seq<u8>, d: Seq<u8>, rest: Seq<u8>)
    ensures
        ({
            let s = a + b + c + d + rest;
            &&& s == a + (b + (c + (d + rest)))
            &&& s.skip(a.len() as int) == b + (c + (d + rest))
            &&& s.skip((a.len() + b.len()) as int) == c + (d + rest)
            &&& s.skip((a.len() + b.len() + c.len()) as int) == d + rest
            &&& s.len() == a.len() + b.len() + c.len() + d.len() + rest.len()
        }),
{
    let s = a + b + c + d + rest;
    assert(s =~= a + (b + (c + (d + rest))));
    assert(s.skip(a.len() as int) =~= b + (c + (d + rest)));
    assert(s.skip((a.len() + b.len()) as int) =~= c + (d + rest));
    assert(s.skip((a.len() + b.len() + c.len()) as int) =~= d + rest);
}

/// Decoding undoes encoding of the variable header of a CONNECT packet,
/// whatever bytes follow it.
proof fn connect_variable_header_round_trip(c: ConnectSpec, rest: Seq<u8>)
    requires
        text_fits(c.protocol_name),
    ensures
        spec_decode_connect_variable_header(connect_variable_header_bytes(c) + rest) == Ok::<
            ((Seq<char>, u8, u8, u16), nat),
            CodecError,
        >(
            (
                (c.protocol_name, c.protocol_version, c.flags, c.keepalive),
                connect_variable_header_bytes(c).len(),
            ),
        ),
{
    let f1 = string_bytes(c.protocol_name);
    let f2 = seq![c.protocol_version];
    let f3 = seq![c.flags];
    let f4 = two_bytes(c.keepalive);
    four_fields_skip(f1, f2, f3, f4, rest);
    string_round_trip(c.protocol_name, f2 + (f3 + (f4 + rest)));
    byte_round_trip(c.protocol_version, f3 + (f4 + rest));
    byte_round_trip(c.flags, f4 + rest);
    two_bytes_round_trip(c.keepalive, rest);
}

/// Decoding undoes encoding of a will that may be absent, whatever bytes
/// follow it.
proof fn will_round_trip(will: Option<(Seq<char>, Seq<u8>)>, rest: Seq<u8>)
    requires
        will matches Some((topic, message)) ==> text_fits(topic) && message.len()
            <= MAX_FIELD_LEN,
    ensures
        spec_decode_will(will is Some, will_bytes(will) + rest) == Ok::<
            (Option<(Seq<char>, Seq<u8>)>, nat),
            CodecError,
        >((will, will_bytes(will).len())),
{
    match will {
        Some((topic, message)) => {
            let f1 = string_bytes(topic);
            let f2 = binary_bytes(message);
            let e = Seq::<u8>::empty();
            four_fields_skip(f1, f2, e, e, rest);
            assert(f1 + f2 + e + e + rest =~= f1 + f2 + rest);
            assert(e + (e + rest) =~= rest);
            string_round_trip(topic, f2 + rest);
            binary_round_trip(message, rest);
        },
        None => {
            assert(will_bytes(will) + rest =~= rest);
        },
    }
}

/// Decoding undoes encoding of a string that may be absent, whatever bytes
/// follow it.
proof fn optional_string_round_trip(text: Option<Seq<char>>, rest: Seq<u8>)
    requires
        text matches Some(t) ==> text_fits(t),
    ensures
        spec_decode_optional_string(text is Some, optional_string_bytes(text) + rest) == Ok::<
            (Option<Seq<char>>, nat),
            CodecError,
        >((text, optional_string_bytes(text).len())),
{
    match text {
        Some(t) => {
            string_round_trip(t, rest);
        },
        None => {
            assert(optional_string_bytes(text) + rest =~= rest);
        },
    }
}

/// Decoding undoes encoding of binary data that may be absent, whatever
/// bytes follow it.
proof fn optional_binary_round_trip(data: Option<Seq<u8>>, rest: Seq<u8>)
    requires
        data matches Some(d) ==> d.len() <= MAX_FIELD_LEN,
    ensures
        spec_decode_optional_binary(data is Some, optional_binary_bytes(data) + rest) == Ok::<
            (Option<Seq<u8>>, nat),
            CodecError,
        >((data, optional_binary_bytes(data).len())),
{
    match data {
        Some(d) => {
            binary_round_trip(d, rest);
        },
        None => {
            assert(optional_binary_bytes(data) + rest =~= rest);
        },
    }
}

/// Decoding undoes encoding of the payload of a CONNECT packet, whatever
/// bytes follow it.
proof fn connect_payload_round_trip(c: ConnectSpec, rest: Seq<u8>)
    requires
        c.wf(),
    ensures
        spec_decode_connect_payload(c.flags, connect_payload_bytes(c) + rest) == Ok::<
            ((Seq<char>, Option<(Seq<char>, Seq<u8>)>, Option<Seq<char>>, Option<Seq<u8>>), nat),
            CodecError,
        >(
            (
                (c.client_identifier, c.will, c.username, c.password),
                connect_payload_bytes(c).len(),
            ),
        ),
{
    let f1 = string_bytes(c.client_identifier);
    let f2 = will_bytes(c.will);
    let f3 = optional_string_bytes(c.username);
    let f4 = optional_binary_bytes(c.password);
    four_fields_skip(f1, f2, f3, f4, rest);
    string_round_trip(c.client_identifier, f2 + (f3 + (f4 + rest)));
    will_round_trip(c.will, f3 + (f4 + rest));
    optional_string_round_trip(c.username, f4 + rest);
    optional_binary_round_trip(c.password, rest);
}

/// Decoding undoes encoding of the body of a CONNECT packet: from the body
/// bytes of a packet that can be sent, the decoder gives back what the
/// packet says.
pub proof fn connect_body_round_trip(c: ConnectSpec)
    requires
        c.wf(),
    ensures
        spec_decode_connect_body(connect_body_bytes(c)) == Ok::<ConnectSpec, CodecError>(c),
{
    let head = connect_variable_header_bytes(c);
    let payload = connect_payload_bytes(c);
    let e = Seq::<u8>::empty();
    connect_variable_header_round_trip(c, payload);
    connect_payload_round_trip(c, e);
    assert(payload + e =~= payload);
    assert((head + payload).skip(head.len() as int) =~= payload);
}

/// What the body decoder yields can be sent again: its strings and binary
/// fields fit, and its will, user name and password are there exactly when
/// its connect flags announce them.
pub proof fn connect_decoded_wf(s: Seq<u8>)
    ensures
        spec_decode_connect_body(s) matches Ok(c) ==> c.wf(),
{
    if let Ok(c) = spec_decode_connect_body(s) {
        decoded_field_fits(s);
        let n1 = spec_decode_connect_variable_header(s)->Ok_0.1;
        let p = s.skip(n1 as int);
        decoded_field_fits(p);
        let m1 = spec_decode_string(p)->Ok_0.1;
        let w = p.skip(m1 as int);
        let m2 = spec_decode_will(has_will(c.flags), w)->Ok_0.1;
        if has_will(c.flags) {
            decoded_field_fits(w);
        }
        let u = p.skip((m1 + m2) as int);
        if has_username(c.flags) {
            decoded_field_fits(u);
        }
    }
}

} // verus!
