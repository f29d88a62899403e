use vstd::prelude::*;

use crate::packet::PacketType;

verus! {

/// Why a received frame could not be decoded.
#[derive(Debug, Clone, Copy, PartialEq, Eq)]
pub enum DecodeError {
    /// The frame body is shorter than the smallest valid body; holds its length.
    TooShort(usize),
    /// The announced frame size lies outside the accepted range; holds it.
    BadSize(i32),
    /// The type tag is neither a response nor a command; holds the tag.
    BadType(i32),
    /// The payload is not valid UTF-8.
    BadUtf8,
    /// The two trailing bytes are not both zero.
    MissingPadding,
}

/// Everything that can go wrong while talking to the server.
#[derive(Debug, Clone, PartialEq, Eq)]
pub enum RconError {
    /// The transport could not be opened; holds the reason.
    Connect(String),
    /// A received frame is malformed.
    Decode(DecodeError),
    /// An outbound payload exceeds the limit: (limit, actual byte length).
    PayloadTooBig(usize, usize),
    /// Writing to an established transport failed; holds the reason.
    Write(String),
    /// Reading from an established transport failed; holds the reason.
    Read(String),
    /// The server refused the password.
    AuthFail,
    /// A reply carried another id than expected: (expected, received).
    IdMismatch(i32, i32),
    /// An outbound packet id is negative.
    InvalidId(i32),
    /// A reply had an unexpected type: (expected, received).
    InvalidPacketType(PacketType, PacketType),
}

} // verus!
