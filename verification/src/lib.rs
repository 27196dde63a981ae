//! Wire protocol engine for Sony WF-1000XM5 earbuds: framing, escaping,
//! checksums, typed payload decoding and the session rules that sit on top.

use vstd::prelude::*;

pub mod command;
pub mod frame;
pub mod frame_parser;
pub mod framing;
pub mod message;
pub mod payload;
pub mod session;

verus! {

/// First byte of every frame on the wire. Never escaped.
pub const MESSAGE_HEADER: u8 = 0x3e;

/// Last byte of every frame on the wire. Never escaped.
pub const MESSAGE_TRAILER: u8 = 0x3c;

/// Prefix announcing that the following byte was masked on the wire.
pub const ESCAPE_BYTE: u8 = 0x3d;

/// Mask applied (by AND) to a byte that follows [`ESCAPE_BYTE`].
pub const ESCAPE_MASK: u8 = 0b11101111;

/// Sum of all bytes of `s` as a mathematical integer.
pub open spec fn byte_sum(s: Seq<u8>) -> nat
    decreases s.len(),
{
    if s.len() == 0 {
        0
    } else {
        byte_sum(s.drop_last()) + s.last() as nat
    }
}

/// The one-byte checksum of `s`: the sum of its bytes modulo 256.
pub open spec fn checksum_of(s: Seq<u8>) -> u8 {
    (byte_sum(s) % 256) as u8
}

/// Computes the one-byte wrapping sum of `bytes`.
pub fn checksum(bytes: &[u8]) -> (sum: u8)
    ensures
        sum == checksum_of(bytes@),
{
    let mut acc: u8 = 0;
    let mut i: usize = 0;
    while i < bytes.len()
        invariant
            i <= bytes.len(),
            acc == checksum_of(bytes@.take(i as int)),
        decreases bytes.len() - i,
    {
        proof {
            assert(bytes@.take(i + 1).drop_last() =~= bytes@.take(i as int));
        }
        acc = acc.wrapping_add(bytes[i]);
        i += 1;
    }
    proof {
        assert(bytes@.take(i as int) =~= bytes@);
    }
    acc
}

/// The kind of a frame, carried in the byte after the header.
#[derive(Clone, Copy, Debug, PartialEq, Eq, Structural)]
pub enum MessageType {
    /// Confirms receipt of the previous frame; carries no payload.
    Ack,
    /// A command or report in the first payload namespace.
    Command1,
    /// A command or report in the second payload namespace.
    Command2,
}

impl MessageType {
    /// The byte that stands for this kind on the wire.
    pub open spec fn byte(self) -> u8 {
        match self {
            MessageType::Ack => 0x01,
            MessageType::Command1 => 0x0c,
            MessageType::Command2 => 0x0e,
        }
    }

    /// The kind that `byte` stands for, if any.
    pub open spec fn of_byte(byte: u8) -> Option<Self> {
        if byte == 0x01 {
            Some(MessageType::Ack)
        } else if byte == 0x0c {
            Some(MessageType::Command1)
        } else if byte == 0x0e {
            Some(MessageType::Command2)
        } else {
            None
        }
    }

    /// Decodes a message-type byte; `None` for a byte that names no kind.
    pub fn from_byte(byte: u8) -> (kind: Option<Self>)
        ensures
            kind == Self::of_byte(byte),
            kind matches Some(k) ==> k.byte() == byte,
    {
        match byte {
            0x01 => Some(MessageType::Ack),
            0x0c => Some(MessageType::Command1),
            0x0e => Some(MessageType::Command2),
            _ => None,
        }
    }

    /// Encodes this kind as its wire byte.
    pub fn to_byte(self) -> (byte: u8)
        ensures
            byte == self.byte(),
            Self::of_byte(byte) == Some(self),
    {
        match self {
            MessageType::Ack => 0x01,
            MessageType::Command1 => 0x0c,
            MessageType::Command2 => 0x0e,
        }
    }
}

} // verus!
