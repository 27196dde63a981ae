//! The layout of a frame on the wire, as mathematical sequences of bytes.
//!
//! A frame is `HEADER [escaped: TYPE SEQ LEN(4, big endian) PAYLOAD.. CHECKSUM] TRAILER`.
//! Inside the escaped region every byte equal to the header, the trailer or
//! the escape byte itself is replaced by the escape byte followed by that
//! byte with one bit masked out.

use vstd::prelude::*;
use crate::{checksum_of, ESCAPE_BYTE, ESCAPE_MASK, MESSAGE_HEADER, MESSAGE_TRAILER};

verus! {

/// Bytes before the payload in an unescaped frame: header, type, sequence
/// number and four length bytes.
pub const PREFIX_LEN: usize = 7;

/// Bytes after the payload in an unescaped frame: checksum and trailer.
pub const SUFFIX_LEN: usize = 2;

/// Whether `byte` may not appear literally between header and trailer.
pub open spec fn is_reserved(byte: u8) -> bool {
    byte == MESSAGE_HEADER || byte == MESSAGE_TRAILER || byte == ESCAPE_BYTE
}

/// The byte that follows the escape prefix when `byte` is escaped.
pub open spec fn masked(byte: u8) -> u8 {
    byte & ESCAPE_MASK
}

/// The byte that an escaped byte `byte` stands for.
pub open spec fn unmasked(byte: u8) -> u8 {
    byte | !ESCAPE_MASK
}

/// How a single byte appears inside the escaped region.
pub open spec fn escape_byte(byte: u8) -> Seq<u8> {
    if is_reserved(byte) {
        seq![ESCAPE_BYTE, masked(byte)]
    } else {
        seq![byte]
    }
}

/// How a run of bytes appears inside the escaped region.
pub open spec fn escape(bytes: Seq<u8>) -> Seq<u8>
    decreases bytes.len(),
{
    if bytes.len() == 0 {
        Seq::empty()
    } else {
        escape(bytes.drop_last()) + escape_byte(bytes.last())
    }
}

/// How many bytes of `bytes` are reserved.
pub open spec fn reserved_count(bytes: Seq<u8>) -> nat
    decreases bytes.len(),
{
    if bytes.len() == 0 {
        0
    } else {
        reserved_count(bytes.drop_last()) + if is_reserved(bytes.last()) {
            1nat
        } else {
            0nat
        }
    }
}

/// The four bytes of `n`, most significant first.
pub open spec fn be_bytes(n: u32) -> Seq<u8> {
    seq![
        (n / 0x100_0000) as u8,
        (n / 0x1_0000 % 0x100) as u8,
        (n / 0x100 % 0x100) as u8,
        (n % 0x100) as u8,
    ]
}

/// The number whose big-endian bytes are `b0 b1 b2 b3`.
pub open spec fn be_value(b0: u8, b1: u8, b2: u8, b3: u8) -> nat {
    (b0 as nat) * 0x100_0000 + (b1 as nat) * 0x1_0000 + (b2 as nat) * 0x100 + (b3 as nat)
}

/// The checksummed part of a frame: type, sequence number, length, payload.
pub open spec fn frame_core(kind: u8, seq_num: u8, payload: Seq<u8>) -> Seq<u8> {
    seq![kind, seq_num] + be_bytes(payload.len() as u32) + payload
}

/// Everything between header and trailer, before escaping.
pub open spec fn frame_body(kind: u8, seq_num: u8, payload: Seq<u8>) -> Seq<u8> {
    let core = frame_core(kind, seq_num, payload);
    core.push(checksum_of(core))
}

/// A whole frame before escaping: what a parser holds once it has read it.
pub open spec fn plain_frame(kind: u8, seq_num: u8, payload: Seq<u8>) -> Seq<u8> {
    seq![MESSAGE_HEADER] + frame_body(kind, seq_num, payload) + seq![MESSAGE_TRAILER]
}

/// A whole frame as it travels on the wire.
pub open spec fn wire_frame(kind: u8, seq_num: u8, payload: Seq<u8>) -> Seq<u8> {
    seq![MESSAGE_HEADER] + escape(frame_body(kind, seq_num, payload)) + seq![MESSAGE_TRAILER]
}

/// Escaping distributes over concatenation.
pub proof fn lemma_escape_concat(a: Seq<u8>, b: Seq<u8>)
    ensures
        escape(a + b) == escape(a) + escape(b),
    decreases b.len(),
{
    if b.len() == 0 {
        assert(a + b =~= a);
        assert(escape(a) + escape(b) =~= escape(a));
    } else {
        lemma_escape_concat(a, b.drop_last());
        assert((a + b).drop_last() =~= a + b.drop_last());
        assert((a + b).last() == b.last());
        assert(escape(a) + escape(b.drop_last()) + escape_byte(b.last()) =~= escape(a) + (escape(
            b.drop_last(),
        ) + escape_byte(b.last())));
    }
}

/// Escaping adds exactly one prefix byte per reserved byte.
pub proof fn lemma_escape_len(bytes: Seq<u8>)
    ensures
        escape(bytes).len() == bytes.len() + reserved_count(bytes),
    decreases bytes.len(),
{
    if bytes.len() > 0 {
        lemma_escape_len(bytes.drop_last());
    }
}

/// Masking turns a reserved byte into one that is not reserved, and
/// unmasking gives the reserved byte back.
pub proof fn lemma_masked_not_reserved(byte: u8)
    requires
        is_reserved(byte),
    ensures
        !is_reserved(masked(byte)),
        unmasked(masked(byte)) == byte,
{
    assert(byte == 0x3eu8 || byte == 0x3cu8 || byte == 0x3du8 ==> (byte & 0b11101111u8) != 0x3eu8
        && (byte & 0b11101111u8) != 0x3cu8 && (byte & 0b11101111u8) != 0x3du8 && ((byte
        & 0b11101111u8) | !0b11101111u8) == byte) by (bit_vector);
}

/// Inside the escaped region no byte on the wire is a header or a trailer:
/// the two delimiters of a frame cannot be mistaken for its content.
pub proof fn lemma_escape_hides_delimiters(bytes: Seq<u8>, at: int)
    requires
        0 <= at < escape(bytes).len(),
    ensures
        escape(bytes)[at] != MESSAGE_HEADER,
        escape(bytes)[at] != MESSAGE_TRAILER,
    decreases bytes.len(),
{
    let head = escape(bytes.drop_last());
    if at < head.len() {
        lemma_escape_hides_delimiters(bytes.drop_last(), at);
    } else if is_reserved(bytes.last()) {
        lemma_masked_not_reserved(bytes.last());
    }
}

/// The big-endian bytes of a number read back as that number.
pub proof fn lemma_be_round_trip(n: u32)
    ensures
        be_bytes(n).len() == 4,
        be_value(be_bytes(n)[0], be_bytes(n)[1], be_bytes(n)[2], be_bytes(n)[3]) == n,
{
    let b0 = n / 0x100_0000;
    assert(b0 < 0x100);
}

} // verus!
