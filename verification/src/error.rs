//! The ways in which encoding or decoding can fail.

use vstd::prelude::*;

verus! {

/// Why a value could not be encoded, or why bytes could not be decoded.
///
/// Every failure is recoverable. A decoder returns either a complete value or
/// exactly one of these kinds, never a partially filled value.
#[derive(Clone, Copy, Debug, PartialEq, Eq, Structural)]
pub enum CodecError {
    /// A value exceeds what the wire format can represent.
    RangeError,
    /// A variable byte integer runs on past its fourth byte.
    MalformedVarInt,
    /// The input ends before the field that is being read does.
    TruncatedInput,
    /// Fewer bytes are available than the remaining length declares.
    TruncatedPacket,
    /// The bytes of a string are not valid UTF-8.
    InvalidUtf8,
    /// The packet type of a fixed header has no meaning in the protocol.
    UnknownPacketType,
    /// The packet type is one of the protocol's, but this codec has no decoder for it.
    UnsupportedPacketType,
    /// Bytes are left within the remaining length after the last field.
    ExtraTrailingBytes,
    /// A property identifier is not in the protocol's table.
    InvalidPropertyIdentifier,
}

impl CodecError {
    /// True for the failures that tell of missing bytes rather than of wrong
    /// ones. After `TruncatedInput`, and after `TruncatedPacket` for an input
    /// that holds less than a whole packet, a caller that reads from a stream
    /// may try again once more bytes have arrived. Every other failure is
    /// final.
    pub open spec fn spec_is_incomplete(self) -> bool {
        self == CodecError::TruncatedInput || self == CodecError::TruncatedPacket
    }

    /// This failure as it counts inside a region of known length, such as
    /// the body of a packet: a field that runs past the end of the region makes
    /// the packet truncated; every other failure stays what it is.
    pub open spec fn spec_in_packet(self) -> CodecError {
        if self == CodecError::TruncatedInput {
            CodecError::TruncatedPacket
        } else {
            self
        }
    }

    /// Tells an incomplete input from a malformed one.
    #[verifier::when_used_as_spec(spec_is_incomplete)]
    pub fn is_incomplete(self) -> (r: bool)
        ensures
            r == self.spec_is_incomplete(),
    {
        match self {
            CodecError::TruncatedInput => true,
            CodecError::TruncatedPacket => true,
            _ => false,
        }
    }

    /// This failure as it counts inside a region of known length.
    #[verifier::when_used_as_spec(spec_in_packet)]
    pub fn in_packet(self) -> (r: CodecError)
        ensures
            r == self.spec_in_packet(),
    {
        match self {
            CodecError::TruncatedInput => CodecError::TruncatedPacket,
            other => other,
        }
    }
}

} // verus!
