//! Whole packets: the step from a fixed header to the decoder of the packet
//! kind it announces, and the framing of a packet within a longer input.

use vstd::prelude::*;
use vstd::slice::slice_subrange;
use crate::connect::{
    connect_body_len_bounded, connect_body_round_trip, connect_decoded_wf, connect_fixed_header,
    connect_body_bytes, connect_packet_bytes, spec_decode_connect_body, ConnectPacket,
    ConnectSpec,
};
use crate::error::CodecError;
use crate::header::{
    fixed_header_bytes, fixed_header_decoded_wf, fixed_header_round_trip,
    fixed_header_verdict_is_final, spec_decode_fixed_header, FixedHeader, PacketType,
};
use crate::primitives::bytes_from;

verus! {

/// A packet of one of the kinds that this codec can encode and decode.
#[derive(Debug, PartialEq, Eq)]
pub enum Packet {
    Connect(ConnectPacket),
}

/// What a packet says.
pub enum PacketSpec {
    Connect(ConnectSpec),
}

impl PacketSpec {
    /// True when the packet can be sent.
    pub open spec fn wf(self) -> bool {
        match self {
            PacketSpec::Connect(c) => c.wf(),
        }
    }

    /// The packet type that the fixed header of this packet names.
    pub open spec fn packet_type(self) -> PacketType {
        match self {
            PacketSpec::Connect(_) => PacketType::Connect,
        }
    }
}

impl View for Packet {
    type V = PacketSpec;

    open spec fn view(&self) -> PacketSpec {
        match self {
            Packet::Connect(c) => PacketSpec::Connect(c@),
        }
    }
}

/// The fixed header that goes before a packet: the type of its kind, and the
/// length of its body.
pub open spec fn packet_fixed_header(p: PacketSpec) -> FixedHeader {
    match p {
        PacketSpec::Connect(c) => connect_fixed_header(c),
    }
}

/// A whole packet on the wire: fixed header, then body.
pub open spec fn packet_bytes(p: PacketSpec) -> Seq<u8> {
    match p {
        PacketSpec::Connect(c) => connect_packet_bytes(c),
    }
}

/// What decoding the body of a packet gives, where `header` is the packet's
/// fixed header and `s` holds what follows the fixed header. As many bytes of
/// `s` as the remaining length says are the body, and `s` has to hold that
/// many; exactly those bytes are handed to the decoder of the packet type
/// that the header names. A packet type without a decoder in this codec is
/// unsupported, whatever its body holds.
pub open spec fn spec_decode_packet_body(header: FixedHeader, s: Seq<u8>) -> Result<
    PacketSpec,
    CodecError,
> {
    if s.len() < header.remaining_length {
        Err(CodecError::TruncatedPacket)
    } else {
        match header.packet_type {
            PacketType::Connect => match spec_decode_connect_body(
                s.take(header.remaining_length as int),
            ) {
                Ok(c) => Ok(PacketSpec::Connect(c)),
                Err(e) => Err(e),
            },
            _ => Err(CodecError::UnsupportedPacketType),
        }
    }
}

/// What decoding a packet from the front of `s` gives: the packet and the
/// number of bytes it took, which are those of the fixed header and as many
/// more as the remaining length says. The fixed header is decoded first,
/// then the body from what follows it.
pub open spec fn spec_decode_packet(s: Seq<u8>) -> Result<(PacketSpec, nat), CodecError> {
    match spec_decode_fixed_header(s) {
        Err(e) => Err(e),
        Ok((header, used)) => match spec_decode_packet_body(header, s.skip(used as int)) {
            Err(e) => Err(e),
            Ok(packet) => Ok((packet, used + header.remaining_length as nat)),
        },
    }
}

impl Clone for Packet {
    /// A copy that says the same.
    fn clone(&self) -> (r: Self)
        ensures
            r@ == self@,
    {
        match self {
            Packet::Connect(c) => Packet::Connect(c.clone()),
        }
    }
}

impl Packet {
    /// The packet type that the fixed header of this packet names.
    pub fn packet_type(&self) -> (r: PacketType)
        ensures
            r == self@.packet_type(),
    {
        match self {
            Packet::Connect(_) => PacketType::Connect,
        }
    }

    /// The fixed header that goes before this packet. Its packet type is that
    /// of the packet's kind and its remaining length is the length of the
    /// packet's body.
    pub fn fixed_header(&self) -> (r: FixedHeader)
        ensures
            r == packet_fixed_header(self@),
            r.packet_type == self@.packet_type(),
            r.wf(),
    {
        match self {
            Packet::Connect(c) => c.fixed_header(),
        }
    }

    /// Encodes the whole packet: fixed header, then body.
    pub fn encode(&self) -> (r: Vec<u8>)
        ensures
            r@ == packet_bytes(self@),
            self@.wf(),
    {
        match self {
            Packet::Connect(c) => c.encode(),
        }
    }

    /// Decodes the body of a packet whose fixed header has been decoded,
    /// where `source` holds what follows the fixed header.
    ///
    /// Only as many bytes of `source` as the remaining length says are read,
    /// so that no field can run on into the next packet. Fails with
    /// `TruncatedPacket` where `source` holds fewer bytes than that, with
    /// `UnsupportedPacketType` where this codec has no decoder for the packet
    /// type, and as the decoder of the packet type does otherwise.
    pub fn decode_body(header: &FixedHeader, source: &[u8]) -> (r: Result<Packet, CodecError>)
        ensures
            match r {
                Ok(packet) => spec_decode_packet_body(*header, source@) == Ok::<
                    PacketSpec,
                    CodecError,
                >(packet@),
                Err(e) => spec_decode_packet_body(*header, source@) == Err::<
                    PacketSpec,
                    CodecError,
                >(e),
            },
    {
        if source.len() < header.remaining_length as usize {
            return Err(CodecError::TruncatedPacket);
        }
        let body = slice_subrange(source, 0, header.remaining_length as usize);
        match header.packet_type {
            PacketType::Connect => match ConnectPacket::decode_body(body) {
                Ok(c) => Ok(Packet::Connect(c)),
                Err(e) => Err(e),
            },
            _ => Err(CodecError::UnsupportedPacketType),
        }
    }

    /// Decodes the packet at the front of `source` and says how many bytes it
    /// took.
    ///
    /// Fails as the fixed header decoder does where the fixed header is
    /// incomplete, malformed or of an unknown packet type, and as
    /// [`Packet::decode_body`] does on what follows the fixed header. Bytes
    /// behind the packet are left alone.
    pub fn decode(source: &[u8]) -> (r: Result<(Packet, usize), CodecError>)
        ensures
            match r {
                Ok((packet, used)) => spec_decode_packet(source@) == Ok::<
                    (PacketSpec, nat),
                    CodecError,
                >((packet@, used as nat)),
                Err(e) => spec_decode_packet(source@) == Err::<(PacketSpec, nat), CodecError>(e),
            },
    {
        let (header, used) = match FixedHeader::decode(source) {
            Err(e) => { return Err(e); },
            Ok(found) => found,
        };
        proof {
            fixed_header_decoded_wf(source@);
        }
        match Packet::decode_body(&header, bytes_from(source, used)) {
            Err(e) => Err(e),
            Ok(packet) => Ok((packet, used + header.remaining_length as usize)),
        }
    }
}

/// A body behind the fixed header that announces its length is found again:
/// the fixed header decodes to itself, and the bytes that its remaining
/// length marks out are the body, whatever bytes follow it.
proof fn framed_body_found(header: FixedHeader, body: Seq<u8>, rest: Seq<u8>)
    requires
        header.wf(),
        header.remaining_length == body.len(),
    ensures
        ({
            let head = fixed_header_bytes(header);
            let s = head + body + rest;
            &&& spec_decode_fixed_header(s) == Ok::<(FixedHeader, nat), CodecError>(
                (header, head.len()),
            )
            &&& s.skip(head.len() as int).len() >= body.len()
            &&& s.skip(head.len() as int).take(body.len() as int) == body
        }),
{
    let head = fixed_header_bytes(header);
    let s = head + body + rest;
    assert(s =~= head + (body + rest));
    fixed_header_round_trip(header, body + rest);
    assert(s.skip(head.len() as int) =~= body + rest);
    assert((body + rest).take(body.len() as int) =~= body);
}

/// Decoding undoes encoding of a packet: from the bytes of a packet that can
/// be sent, whatever bytes follow them, the decoder gives back what the
/// packet says and takes exactly the bytes of the packet.
pub proof fn packet_round_trip(p: PacketSpec, rest: Seq<u8>)
    requires
        p.wf(),
    ensures
        spec_decode_packet(packet_bytes(p) + rest) == Ok::<(PacketSpec, nat), CodecError>(
            (p, packet_bytes(p).len()),
        ),
{
    match p {
        PacketSpec::Connect(c) => {
            connect_body_len_bounded(c);
            framed_body_found(connect_fixed_header(c), connect_body_bytes(c), rest);
            connect_body_round_trip(c);
        },
    }
}

/// True when `s` begins with a whole packet: its fixed header can be decoded,
/// and as many bytes follow it as its remaining length says.
pub open spec fn holds_whole_packet(s: Seq<u8>) -> bool {
    spec_decode_fixed_header(s) matches Ok((header, used)) && s.len() >= used
        + header.remaining_length
}

/// What is said of a whole packet is said for good: where the input begins
/// with a whole packet, the decoder yields the same packet, or fails in the
/// same way, whatever bytes are put behind the input.
pub proof fn packet_verdict_is_final(s: Seq<u8>, more: Seq<u8>)
    requires
        holds_whole_packet(s),
    ensures
        spec_decode_packet(s + more) == spec_decode_packet(s),
{
    let (header, used) = spec_decode_fixed_header(s)->Ok_0;
    let length = header.remaining_length as int;
    fixed_header_decoded_wf(s);
    fixed_header_verdict_is_final(s, more);
    assert((s + more).skip(used as int).take(length) =~= s.skip(used as int).take(length));
}

/// A packet that is not all there is never decoded in part: where the fixed
/// header can be decoded and fewer bytes follow it than its remaining length
/// says, decoding fails with `TruncatedPacket`.
pub proof fn truncated_packet_detected(s: Seq<u8>)
    requires
        spec_decode_fixed_header(s) is Ok,
        !holds_whole_packet(s),
    ensures
        spec_decode_packet(s) == Err::<(PacketSpec, nat), CodecError>(
            CodecError::TruncatedPacket,
        ),
{
    fixed_header_decoded_wf(s);
}

/// The remaining length of a decoded packet is the length of its body: what
/// the decoder took is the fixed header and as many bytes as the fixed
/// header's remaining length says, the packet is of the type that the fixed
/// header names, and what it says can be sent again.
pub proof fn decoded_packet_framed(s: Seq<u8>)
    ensures
        spec_decode_packet(s) matches Ok((packet, used)) ==> {
            &&& spec_decode_fixed_header(s) matches Ok((header, n))
            &&& used == n + header.remaining_length
            &&& used <= s.len()
            &&& header.packet_type == packet.packet_type()
            &&& packet.wf()
        },
{
    if let Ok((packet, used)) = spec_decode_packet(s) {
        let (header, n) = spec_decode_fixed_header(s)->Ok_0;
        fixed_header_decoded_wf(s);
        connect_decoded_wf(s.skip(n as int).take(header.remaining_length as int));
    }
}

} // verus!
