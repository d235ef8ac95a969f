//! The fixed header that every packet begins with: one byte that holds the
//! packet type in its upper four bits and the flags in its lower four, then
//! the remaining length as a variable byte integer.

use vstd::prelude::*;
use crate::error::CodecError;
use crate::primitives::bytes_from;
use crate::varint::{
    decode_variable_byte_int, encode_variable_byte_int, spec_decode_varint, varint_bytes,
    varint_decoded_in_range, varint_round_trip, varint_verdict_is_final, VARINT_MAX,
};

verus! {

/// The kinds of packet that the protocol knows, each with its four-bit code.
#[derive(Clone, Copy, Debug, PartialEq, Eq, Structural)]
pub enum PacketType {
    Connect,
    ConnAck,
    Publish,
    PubAck,
    PubRec,
    PubRel,
    PubComp,
    Subscribe,
    SubAck,
    Unsubscribe,
    UnsubAck,
    PingReq,
    PingResp,
    Disconnect,
}

impl PacketType {
    /// The code of this packet type: 1 for CONNECT up to 14 for DISCONNECT.
    pub open spec fn spec_code(self) -> u8 {
        match self {
            PacketType::Connect => 1,
            PacketType::ConnAck => 2,
            PacketType::Publish => 3,
            PacketType::PubAck => 4,
            PacketType::PubRec => 5,
            PacketType::PubRel => 6,
            PacketType::PubComp => 7,
            PacketType::Subscribe => 8,
            PacketType::SubAck => 9,
            PacketType::Unsubscribe => 10,
            PacketType::UnsubAck => 11,
            PacketType::PingReq => 12,
            PacketType::PingResp => 13,
            PacketType::Disconnect => 14,
        }
    }

    /// The packet type with the given code; codes 0 and 15 and above have none.
    pub open spec fn spec_from_code(code: u8) -> Option<PacketType> {
        if code == 1 {
            Some(PacketType::Connect)
        } else if code == 2 {
            Some(PacketType::ConnAck)
        } else if code == 3 {
            Some(PacketType::Publish)
        } else if code == 4 {
            Some(PacketType::PubAck)
        } else if code == 5 {
            Some(PacketType::PubRec)
        } else if code == 6 {
            Some(PacketType::PubRel)
        } else if code == 7 {
            Some(PacketType::PubComp)
        } else if code == 8 {
            Some(PacketType::Subscribe)
        } else if code == 9 {
            Some(PacketType::SubAck)
        } else if code == 10 {
            Some(PacketType::Unsubscribe)
        } else if code == 11 {
            Some(PacketType::UnsubAck)
        } else if code == 12 {
            Some(PacketType::PingReq)
        } else if code == 13 {
            Some(PacketType::PingResp)
        } else if code == 14 {
            Some(PacketType::Disconnect)
        } else {
            None
        }
    }

    /// The code of this packet type.
    #[verifier::when_used_as_spec(spec_code)]
    pub fn code(self) -> (r: u8)
        ensures
            r == self.spec_code(),
            1 <= r <= 14,
    {
        match self {
            PacketType::Connect => 1,
            PacketType::ConnAck => 2,
            PacketType::Publish => 3,
            PacketType::PubAck => 4,
            PacketType::PubRec => 5,
            PacketType::PubRel => 6,
            PacketType::PubComp => 7,
            PacketType::Subscribe => 8,
            PacketType::SubAck => 9,
            PacketType::Unsubscribe => 10,
            PacketType::UnsubAck => 11,
            PacketType::PingReq => 12,
            PacketType::PingResp => 13,
            PacketType::Disconnect => 14,
        }
    }

    /// The packet type with the given code, or nothing where the code has no
    /// meaning in the protocol.
    #[verifier::when_used_as_spec(spec_from_code)]
    pub fn from_code(code: u8) -> (r: Option<PacketType>)
        ensures
            r == PacketType::spec_from_code(code),
    {
        match code {
            1 => Some(PacketType::Connect),
            2 => Some(PacketType::ConnAck),
            3 => Some(PacketType::Publish),
            4 => Some(PacketType::PubAck),
            5 => Some(PacketType::PubRec),
            6 => Some(PacketType::PubRel),
            7 => Some(PacketType::PubComp),
            8 => Some(PacketType::Subscribe),
            9 => Some(PacketType::SubAck),
            10 => Some(PacketType::Unsubscribe),
            11 => Some(PacketType::UnsubAck),
            12 => Some(PacketType::PingReq),
            13 => Some(PacketType::PingResp),
            14 => Some(PacketType::Disconnect),
            _ => None,
        }
    }
}

/// The code of a packet type names that packet type and no other.
pub proof fn packet_type_code_round_trip(t: PacketType)
    ensures
        1 <= t.spec_code() <= 14,
        PacketType::spec_from_code(t.spec_code()) == Some(t),
{
}

/// The fixed header of a packet.
#[derive(Clone, Copy, Debug, PartialEq, Eq, Structural)]
pub struct FixedHeader {
    /// The kind of packet.
    pub packet_type: PacketType,
    /// The four flag bits, whose meaning depends on the packet type.
    pub flags: u8,
    /// The number of bytes of the packet behind the fixed header.
    pub remaining_length: u32,
}

/// The bytes of a fixed header: the type and flags byte, then the remaining
/// length as a variable byte integer.
pub open spec fn fixed_header_bytes(h: FixedHeader) -> Seq<u8>
    recommends
        h.wf(),
{
    seq![(h.packet_type.spec_code() * 16 + h.flags) as u8] + varint_bytes(
        h.remaining_length as nat,
    )
}

/// What decoding a fixed header from the front of `s` gives: the header and
/// the number of bytes it took. The packet type is judged as soon as the first
/// byte is there; the remaining length is decoded from the bytes behind it.
pub open spec fn spec_decode_fixed_header(s: Seq<u8>) -> Result<(FixedHeader, nat), CodecError> {
    if s.len() < 1 {
        Err(CodecError::TruncatedInput)
    } else {
        match PacketType::spec_from_code(s[0] / 16) {
            None => Err(CodecError::UnknownPacketType),
            Some(packet_type) => match spec_decode_varint(s.skip(1)) {
                Err(e) => Err(e),
                Ok((length, used)) => Ok(
                    (
                        FixedHeader {
                            packet_type,
                            flags: s[0] % 16,
                            remaining_length: length as u32,
                        },
                        1 + used,
                    ),
                ),
            },
        }
    }
}

impl FixedHeader {
    /// True when the header can be encoded: the flags fit four bits and the
    /// remaining length fits a variable byte integer.
    pub open spec fn wf(self) -> bool {
        self.flags < 16 && self.remaining_length <= VARINT_MAX
    }

    /// Encodes the header.
    ///
    /// Fails with `RangeError` exactly when the flags do not fit four bits or
    /// the remaining length is above 268,435,455.
    pub fn encode(&self) -> (r: Result<Vec<u8>, CodecError>)
        ensures
            self.wf() ==> r is Ok && r->Ok_0@ == fixed_header_bytes(*self),
            !self.wf() ==> r == Err::<Vec<u8>, CodecError>(CodecError::RangeError),
    {
        if self.flags > 15 {
            return Err(CodecError::RangeError);
        }
        match encode_variable_byte_int(self.remaining_length) {
            Err(e) => Err(e),
            Ok(mut length) => {
                let code: u8 = self.packet_type.code();
                let flags: u8 = self.flags;
                let first: u8 = (code << 4) | flags;
                assert(first == code * 16 + flags) by (bit_vector)
                    requires
                        first == (code << 4) | flags,
                        code < 16,
                        flags < 16,
                ;
                let mut out: Vec<u8> = Vec::new();
                out.push(first);
                out.append(&mut length);
                Ok(out)
            },
        }
    }

    /// Decodes a fixed header from the front of `source` and says how many
    /// bytes it took.
    ///
    /// Fails with `TruncatedInput` on an empty input, with `UnknownPacketType`
    /// where the upper four bits of the first byte are no packet type of the
    /// protocol, and as the variable byte integer decoder does where the
    /// remaining length is incomplete or malformed.
    pub fn decode(source: &[u8]) -> (r: Result<(FixedHeader, usize), CodecError>)
        ensures
            match r {
                Ok((header, used)) => spec_decode_fixed_header(source@) == Ok::<
                    (FixedHeader, nat),
                    CodecError,
                >((header, used as nat)),
                Err(e) => spec_decode_fixed_header(source@) == Err::<
                    (FixedHeader, nat),
                    CodecError,
                >(e),
            },
    {
        if source.len() < 1 {
            return Err(CodecError::TruncatedInput);
        }
        let first: u8 = source[0];
        let code: u8 = (first & 0xF0) >> 4;
        let flags: u8 = first & 0x0F;
        assert(code == first / 16 && flags == first % 16) by (bit_vector)
            requires
                code == (first & 0xF0) >> 4,
                flags == first & 0x0F,
        ;
        match PacketType::from_code(code) {
            None => Err(CodecError::UnknownPacketType),
            Some(packet_type) => {
                let rest = bytes_from(source, 1);
                match decode_variable_byte_int(rest) {
                    Err(e) => Err(e),
                    Ok((remaining_length, used)) => {
                        proof {
                            varint_decoded_in_range(rest@);
                        }
                        Ok((FixedHeader { packet_type, flags, remaining_length }, 1 + used))
                    },
                }
            },
        }
    }
}

/// Decoding undoes encoding of a fixed header: from the bytes of a header
/// that can be encoded, whatever bytes follow them, the decoder gives back
/// the same packet type, flags and remaining length and takes exactly the
/// bytes of the header.
pub proof fn fixed_header_round_trip(h: FixedHeader, rest: Seq<u8>)
    requires
        h.wf(),
    ensures
        spec_decode_fixed_header(fixed_header_bytes(h) + rest) == Ok::<
            (FixedHeader, nat),
            CodecError,
        >((h, fixed_header_bytes(h).len())),
{
    let s = fixed_header_bytes(h) + rest;
    let first = (h.packet_type.spec_code() * 16 + h.flags) as u8;
    packet_type_code_round_trip(h.packet_type);
    assert(s[0] == first);
    assert(first / 16 == h.packet_type.spec_code());
    assert(first % 16 == h.flags);
    assert(s.skip(1) =~= varint_bytes(h.remaining_length as nat) + rest);
    varint_round_trip(h.remaining_length as nat, rest);
}

/// A decoded fixed header can be encoded again: its flags fit four bits and
/// its remaining length fits a variable byte integer.
pub proof fn fixed_header_decoded_wf(s: Seq<u8>)
    ensures
        spec_decode_fixed_header(s) matches Ok((h, used)) ==> h.wf() && 2 <= used <= 5 && used
            <= s.len(),
{
    if s.len() >= 1 {
        varint_decoded_in_range(s.skip(1));
    }
}

/// A first byte whose upper four bits are no packet type of the protocol is
/// refused whatever follows it: the decoder fails with `UnknownPacketType`
/// exactly where the input is not empty and its first byte is below 16 or
/// above 239.
pub proof fn unknown_packet_type_detected(s: Seq<u8>)
    ensures
        spec_decode_fixed_header(s) == Err::<(FixedHeader, nat), CodecError>(
            CodecError::UnknownPacketType,
        ) <==> s.len() >= 1 && (s[0] < 16 || s[0] > 239),
{
    if s.len() >= 1 {
        if 16 <= s[0] <= 239 {
            assert(1 <= s[0] / 16 <= 14);
        } else {
            assert(s[0] / 16 == 0 || s[0] / 16 == 15);
        }
    }
}

/// Only an incomplete input can be cured by more input: where the decoder
/// yields a fixed header or fails otherwise than with `TruncatedInput`, it
/// does the same whatever bytes are put behind the input.
pub proof fn fixed_header_verdict_is_final(s: Seq<u8>, more: Seq<u8>)
    requires
        spec_decode_fixed_header(s) != Err::<(FixedHeader, nat), CodecError>(
            CodecError::TruncatedInput,
        ),
    ensures
        spec_decode_fixed_header(s + more) == spec_decode_fixed_header(s),
{
    let longer = s + more;
    assert(longer[0] == s[0]);
    assert(longer.skip(1) =~= s.skip(1) + more);
    if PacketType::spec_from_code(s[0] / 16) is Some {
        varint_verdict_is_final(s.skip(1), more);
    }
}

} // verus!
