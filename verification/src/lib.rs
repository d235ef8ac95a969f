//! A codec for the MQTT binary wire protocol: from packet values to the exact
//! bytes that go over a connection, and from bytes back to packet values or
//! to the reason why they are none.
//!
//! The codec keeps no state between calls and never reads from a connection
//! itself: every decoder takes the bytes that are there, says how many of
//! them it took, and tells an input that is merely incomplete from one that
//! is wrong for good.

pub mod connect;
pub mod error;
pub mod header;
pub mod packets;
pub mod primitives;
pub mod property;
pub mod property_set;
pub mod types;
pub mod varint;
