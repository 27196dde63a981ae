//! Validation of a whole unescaped frame: a frame is accepted only if its
//! type is known and its checksum matches.

use vstd::prelude::*;
use crate::frame::{PREFIX_LEN, SUFFIX_LEN};
use crate::frame_parser::{frame_fields, FrameParser, InvalidChecksum};
use crate::MessageType;

verus! {

/// A frame of known type. The payload borrows from the frame's bytes.
#[derive(Debug)]
pub struct Message<'a> {
    pub kind: MessageType,
    pub payload: &'a [u8],
    pub seq_num: u8,
}

/// The mathematical content of a [`Message`].
pub struct MessageView {
    pub kind: MessageType,
    pub payload: Seq<u8>,
    pub seq_num: u8,
}

impl<'a> View for Message<'a> {
    type V = MessageView;

    open spec fn view(&self) -> MessageView {
        MessageView { kind: self.kind, payload: self.payload@, seq_num: self.seq_num }
    }
}

/// Why a frame was not accepted.
#[derive(Debug)]
pub enum ParseMessageError<'a> {
    /// The checksum byte `got` differs from the sum `expected` of the bytes
    /// it covers.
    ChecksumFailed { got: u8, expected: u8, msg: Message<'a> },
    /// The type byte names no message type.
    UnknownMessageType { msg_type: u8, seq_num: u8, payload: &'a [u8] },
    /// A frame has at least nine bytes.
    NotEnoughBytes,
}

/// The mathematical content of a [`ParseMessageError`].
pub enum ParseMessageErrorView {
    ChecksumFailed { got: u8, expected: u8, msg: MessageView },
    UnknownMessageType { msg_type: u8, seq_num: u8, payload: Seq<u8> },
    NotEnoughBytes,
}

impl<'a> View for ParseMessageError<'a> {
    type V = ParseMessageErrorView;

    open spec fn view(&self) -> ParseMessageErrorView {
        match *self {
            ParseMessageError::ChecksumFailed { got, expected, msg } => {
                ParseMessageErrorView::ChecksumFailed { got, expected, msg: msg@ }
            },
            ParseMessageError::UnknownMessageType { msg_type, seq_num, payload } => {
                ParseMessageErrorView::UnknownMessageType { msg_type, seq_num, payload: payload@ }
            },
            ParseMessageError::NotEnoughBytes => ParseMessageErrorView::NotEnoughBytes,
        }
    }
}

/// What the unescaped frame `bytes` is accepted as, or why it is refused.
/// The type is looked at before the checksum.
pub open spec fn accept_frame(bytes: Seq<u8>) -> Result<MessageView, ParseMessageErrorView> {
    if bytes.len() < PREFIX_LEN + SUFFIX_LEN {
        Err(ParseMessageErrorView::NotEnoughBytes)
    } else {
        let fields = frame_fields(bytes);
        match fields.kind {
            Err(msg_type) => Err(
                ParseMessageErrorView::UnknownMessageType {
                    msg_type,
                    seq_num: fields.seq_num,
                    payload: fields.payload,
                },
            ),
            Ok(kind) => {
                let msg = MessageView { kind, payload: fields.payload, seq_num: fields.seq_num };
                match fields.checksum {
                    Err(InvalidChecksum { expected, got }) => Err(
                        ParseMessageErrorView::ChecksumFailed { got, expected, msg },
                    ),
                    Ok(_) => Ok(msg),
                }
            },
        }
    }
}

/// The mathematical content of what [`parse_message`] returns.
pub open spec fn result_view(result: Result<Message<'_>, ParseMessageError<'_>>) -> Result<
    MessageView,
    ParseMessageErrorView,
> {
    match result {
        Ok(msg) => Ok(msg@),
        Err(err) => Err(err@),
    }
}

/// Reads the type, sequence number and payload of the unescaped frame
/// `bytes`, such as the buffer of a parser that reported `Ready`, and
/// accepts the frame only if its type is known and its checksum matches.
pub fn parse_message<'a>(bytes: &'a [u8]) -> (result: Result<Message<'a>, ParseMessageError<'a>>)
    ensures
        result_view(result) == accept_frame(bytes@),
{
    if bytes.len() < 9 {
        return Err(ParseMessageError::NotEnoughBytes);
    }
    let frame = FrameParser::parse_message(bytes);
    match frame.kind {
        Err(msg_type) => Err(
            ParseMessageError::UnknownMessageType {
                msg_type,
                seq_num: frame.seq_num,
                payload: frame.payload,
            },
        ),
        Ok(kind) => {
            let msg = Message { kind, payload: frame.payload, seq_num: frame.seq_num };
            match frame.checksum {
                Err(sums) => Err(
                    ParseMessageError::ChecksumFailed {
                        got: sums.got,
                        expected: sums.expected,
                        msg,
                    },
                ),
                Ok(_) => Ok(msg),
            }
        },
    }
}

} // verus!
