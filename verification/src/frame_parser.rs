//! A streaming parser that assembles frames from a byte stream delivered in
//! chunks of any size.

use vstd::prelude::*;
use crate::frame::{be_value, unmasked, PREFIX_LEN, SUFFIX_LEN};
use crate::{checksum, checksum_of, MessageType, ESCAPE_BYTE, ESCAPE_MASK, MESSAGE_HEADER};

verus! {

/// A checksum byte that does not match the bytes it covers.
#[derive(Clone, Copy, Debug, PartialEq, Eq, Structural)]
pub struct InvalidChecksum {
    /// The sum recomputed over the received bytes.
    pub expected: u8,
    /// The checksum byte found in the frame.
    pub got: u8,
}

/// Why the parser refused a byte.
#[derive(Clone, Copy, Debug, PartialEq, Eq, Structural)]
pub enum FramerParserError {
    /// A frame must start with the header byte; the stream did not.
    NoMessageHeader,
}

/// The structural fields of a complete frame. The payload borrows from the
/// parser's buffer.
#[derive(Debug)]
pub struct Message<'a> {
    /// The frame's kind, or the raw type byte if it names none.
    pub kind: Result<MessageType, u8>,
    pub seq_num: u8,
    pub payload: &'a [u8],
    /// The frame's checksum byte if it matches, or both sums if not.
    pub checksum: Result<u8, InvalidChecksum>,
}

/// The mathematical content of a [`Message`].
pub struct MessageView {
    pub kind: Result<MessageType, u8>,
    pub seq_num: u8,
    pub payload: Seq<u8>,
    pub checksum: Result<u8, InvalidChecksum>,
}

impl<'a> View for Message<'a> {
    type V = MessageView;

    open spec fn view(&self) -> MessageView {
        MessageView {
            kind: self.kind,
            seq_num: self.seq_num,
            payload: self.payload@,
            checksum: self.checksum,
        }
    }
}

/// What one call of [`FrameParser::parse`] found.
pub enum FrameParserResult<'a> {
    /// A whole frame was assembled from the first `consumed` bytes of the
    /// chunk. Bytes after those belong to the next frame.
    Ready { msg: Message<'a>, consumed: usize },
    /// The chunk ended before the frame did. `bytes_needed` is the number of
    /// unescaped bytes still missing, once the length field has been read.
    Incomplete { bytes_needed: Option<u64> },
    /// The byte at `consumed - 1` of the chunk cannot start a frame.
    Error { err: FramerParserError, consumed: usize },
}

/// The mathematical content of a [`FrameParserResult`].
pub enum ParseOutcome {
    Ready { msg: MessageView, consumed: nat },
    Incomplete { bytes_needed: Option<nat> },
    Error { err: FramerParserError, consumed: nat },
}

impl<'a> View for FrameParserResult<'a> {
    type V = ParseOutcome;

    open spec fn view(&self) -> ParseOutcome {
        match *self {
            FrameParserResult::Ready { msg, consumed } => ParseOutcome::Ready {
                msg: msg@,
                consumed: consumed as nat,
            },
            FrameParserResult::Incomplete { bytes_needed } => ParseOutcome::Incomplete {
                bytes_needed: match bytes_needed {
                    Some(n) => Some(n as nat),
                    None => None,
                },
            },
            FrameParserResult::Error { err, consumed } => ParseOutcome::Error {
                err,
                consumed: consumed as nat,
            },
        }
    }
}

/// The state of a parser between two bytes: the unescaped bytes of the frame
/// collected so far, and whether the previous byte was an escape prefix.
pub struct ParserState {
    pub buf: Seq<u8>,
    pub need_escape: bool,
}

/// The payload length that the frame in `buf` declares, once all four
/// length bytes are there.
pub open spec fn declared_len(buf: Seq<u8>) -> Option<nat> {
    if buf.len() >= PREFIX_LEN {
        Some(be_value(buf[3], buf[4], buf[5], buf[6]))
    } else {
        None
    }
}

/// Whether `buf` holds exactly one whole frame.
pub open spec fn is_complete(buf: Seq<u8>) -> bool {
    declared_len(buf) matches Some(n) && buf.len() == PREFIX_LEN + n + SUFFIX_LEN
}

/// How many unescaped bytes the frame in `buf` still lacks, once its length
/// field has been read.
pub open spec fn bytes_needed_of(buf: Seq<u8>) -> Option<nat> {
    match declared_len(buf) {
        Some(n) => Some((PREFIX_LEN + n + SUFFIX_LEN - buf.len()) as nat),
        None => None,
    }
}

/// The kind that type byte `byte` names, or the byte itself if it names none.
pub open spec fn kind_of(byte: u8) -> Result<MessageType, u8> {
    match MessageType::of_byte(byte) {
        Some(kind) => Ok(kind),
        None => Err(byte),
    }
}

/// The structural fields of the whole frame `buf`.
pub open spec fn frame_fields(buf: Seq<u8>) -> MessageView
    recommends
        buf.len() >= PREFIX_LEN + SUFFIX_LEN,
{
    let covered = buf.subrange(1, buf.len() - 2);
    let got = buf[buf.len() - 2];
    let expected = checksum_of(covered);
    MessageView {
        kind: kind_of(buf[1]),
        seq_num: buf[2],
        payload: buf.subrange(PREFIX_LEN as int, buf.len() - 2),
        checksum: if got == expected {
            Ok(got)
        } else {
            Err(InvalidChecksum { expected, got })
        },
    }
}

impl ParserState {
    /// The state of a parser that has seen nothing.
    pub open spec fn fresh() -> ParserState {
        ParserState { buf: Seq::empty(), need_escape: false }
    }

    /// Whether the parser stands between two frames: nothing of the next
    /// frame has been read, not even an escape prefix.
    pub open spec fn at_boundary(self) -> bool {
        (self.buf.len() == 0 || is_complete(self.buf)) && !self.need_escape
    }

    /// What every state reached by a parser satisfies.
    pub open spec fn well_formed(self) -> bool {
        &&& self.buf.len() > 0 ==> self.buf[0] == MESSAGE_HEADER
        &&& declared_len(self.buf) matches Some(n) ==> self.buf.len() <= PREFIX_LEN + n
            + SUFFIX_LEN
        &&& is_complete(self.buf) ==> !self.need_escape
    }

    /// Whether `byte` only announces that the next byte is escaped.
    pub open spec fn starts_escape(self, byte: u8) -> bool {
        !self.need_escape && byte == ESCAPE_BYTE
    }

    /// The byte that `byte` stands for in this state.
    pub open spec fn unescaped(self, byte: u8) -> u8 {
        if self.need_escape {
            unmasked(byte)
        } else {
            byte
        }
    }

    /// Whether the parser refuses `byte`: it would be the first byte of a
    /// frame and is not the header.
    pub open spec fn rejects(self, byte: u8) -> bool {
        !self.starts_escape(byte) && self.buf.len() == 0 && self.unescaped(byte)
            != MESSAGE_HEADER
    }

    /// The state after `byte`.
    pub open spec fn after_byte(self, byte: u8) -> ParserState {
        if self.starts_escape(byte) {
            ParserState { buf: self.buf, need_escape: true }
        } else if self.rejects(byte) {
            ParserState { buf: self.buf, need_escape: false }
        } else {
            ParserState { buf: self.buf.push(self.unescaped(byte)), need_escape: false }
        }
    }

    /// The state in which a call of `parse` starts reading: a frame left
    /// over from the previous call is dropped first.
    pub open spec fn rewound(self) -> ParserState {
        if is_complete(self.buf) {
            ParserState { buf: Seq::empty(), need_escape: self.need_escape }
        } else {
            self
        }
    }

    /// Reads `bytes` from index `from` on, up to the end of the first frame
    /// or the first refused byte, and gives the state reached and what is
    /// reported.
    pub open spec fn feed(self, bytes: Seq<u8>, from: int) -> (ParserState, ParseOutcome)
        decreases bytes.len() - from,
    {
        if from < 0 || from >= bytes.len() {
            (self, ParseOutcome::Incomplete { bytes_needed: bytes_needed_of(self.buf) })
        } else {
            let next = self.after_byte(bytes[from]);
            if self.rejects(bytes[from]) {
                (
                    next,
                    ParseOutcome::Error {
                        err: FramerParserError::NoMessageHeader,
                        consumed: (from + 1) as nat,
                    },
                )
            } else if is_complete(next.buf) {
                (
                    next,
                    ParseOutcome::Ready {
                        msg: frame_fields(next.buf),
                        consumed: (from + 1) as nat,
                    },
                )
            } else {
                next.feed(bytes, from + 1)
            }
        }
    }

    /// The state after one call of `parse` on `bytes`, and what it reports.
    pub open spec fn parse(self, bytes: Seq<u8>) -> (ParserState, ParseOutcome) {
        self.rewound().feed(bytes, 0)
    }
}

/// Assembles frames from a stream of bytes. One parser serves a whole
/// session: it keeps the bytes of an unfinished frame between calls.
pub struct FrameParser {
    buf: Vec<u8>,
    need_escape: bool,
}

impl View for FrameParser {
    type V = ParserState;

    closed spec fn view(&self) -> ParserState {
        ParserState { buf: self.buf@, need_escape: self.need_escape }
    }
}

impl FrameParser {
    /// A parser that has seen nothing.
    pub fn new() -> (parser: Self)
        ensures
            parser@ == ParserState::fresh(),
    {
        FrameParser { buf: Vec::new(), need_escape: false }
    }

    /// The unescaped bytes of the frame read so far. After `parse` has
    /// reported `Ready` this is the whole frame, until the next call.
    pub fn buffer(&self) -> (buf: &[u8])
        ensures
            buf@ == self@.buf,
    {
        self.buf.as_slice()
    }

    /// Reads `bytes` up to the end of the first frame in them.
    ///
    /// A frame left in the buffer by the previous call is dropped first.
    /// `Ready` tells how many bytes of the chunk were used: call again on
    /// the rest of the chunk, which may hold more frames. A wrong checksum
    /// or an unknown message type is reported inside `Ready`, never as
    /// `Error`.
    pub fn parse<'a>(&'a mut self, bytes: &[u8]) -> (result: FrameParserResult<'a>)
        requires
            old(self)@.well_formed(),
        ensures
            final(self)@.well_formed(),
            final(self)@ == old(self)@.parse(bytes@).0,
            result@ == old(self)@.parse(bytes@).1,
    {
        if self.done() {
            self.buf.clear();
        }
        let mut idx: usize = 0;
        while idx < bytes.len()
            invariant
                idx <= bytes.len(),
                self@.well_formed(),
                !is_complete(self@.buf),
                self@.feed(bytes@, idx as int) == old(self)@.parse(bytes@),
            decreases bytes.len() - idx,
        {
            match self.parse_byte(bytes[idx]) {
                Err(err) => {
                    return FrameParserResult::Error { err, consumed: idx + 1 };
                },
                Ok(()) => {},
            }
            if self.done() {
                return FrameParserResult::Ready {
                    msg: Self::parse_message(self.buf.as_slice()),
                    consumed: idx + 1,
                };
            }
            idx += 1;
        }
        FrameParserResult::Incomplete { bytes_needed: self.bytes_needed() }
    }

    /// Reads the structural fields of the whole frame `buf`.
    pub fn parse_message(buf: &[u8]) -> (msg: Message<'_>)
        requires
            buf@.len() >= PREFIX_LEN + SUFFIX_LEN,
        ensures
            msg@ == frame_fields(buf@),
    {
        let kind = match MessageType::from_byte(buf[1]) {
            Some(kind) => Ok(kind),
            None => Err(buf[1]),
        };
        let seq_num = buf[2];
        let end = buf.len() - 2;
        let supposed_checksum = buf[end];
        let real_checksum = checksum(&buf[1..end]);
        let checksum = if supposed_checksum == real_checksum {
            Ok(real_checksum)
        } else {
            Err(InvalidChecksum { expected: real_checksum, got: supposed_checksum })
        };
        Message { kind, seq_num, payload: &buf[7..end], checksum }
    }

    fn done(&self) -> (b: bool)
        requires
            self@.well_formed(),
        ensures
            b == is_complete(self@.buf),
    {
        match self.bytes_needed() {
            Some(n) => n == 0,
            None => false,
        }
    }

    fn bytes_needed(&self) -> (needed: Option<u64>)
        requires
            self@.well_formed(),
        ensures
            match needed {
                Some(n) => bytes_needed_of(self@.buf) == Some(n as nat),
                None => bytes_needed_of(self@.buf) is None,
            },
    {
        if self.buf.len() < PREFIX_LEN {
            None
        } else {
            let msg_len = read_be(self.buf[3], self.buf[4], self.buf[5], self.buf[6]);
            Some(msg_len as u64 + 9 - self.buf.len() as u64)
        }
    }

    fn parse_byte(&mut self, byte: u8) -> (result: Result<(), FramerParserError>)
        requires
            old(self)@.well_formed(),
            !is_complete(old(self)@.buf),
        ensures
            final(self)@.well_formed(),
            final(self)@ == old(self)@.after_byte(byte),
            result is Err <==> old(self)@.rejects(byte),
    {
        let mut byte = byte;
        if self.need_escape {
            byte = byte | !ESCAPE_MASK;
            self.need_escape = false;
        } else if byte == ESCAPE_BYTE {
            self.need_escape = true;
            return Ok(());
        }
        if self.buf.len() == 0 && byte != MESSAGE_HEADER {
            return Err(FramerParserError::NoMessageHeader);
        }
        self.buf.push(byte);
        Ok(())
    }
}

impl Default for FrameParser {
    fn default() -> (parser: Self)
        ensures
            parser@ == ParserState::fresh(),
    {
        FrameParser::new()
    }
}

/// The number whose big-endian bytes are `b0 b1 b2 b3`.
fn read_be(b0: u8, b1: u8, b2: u8, b3: u8) -> (n: u32)
    ensures
        n == be_value(b0, b1, b2, b3),
{
    assert(((b0 as u32) << 24u32) | ((b1 as u32) << 16u32) | ((b2 as u32) << 8u32) | (b3 as u32)
        == (b0 as u32) * 0x100_0000 + (b1 as u32) * 0x1_0000 + (b2 as u32) * 0x100 + (b3 as u32))
        by (bit_vector);
    ((b0 as u32) << 24u32) | ((b1 as u32) << 16u32) | ((b2 as u32) << 8u32) | (b3 as u32)
}

} // verus!
