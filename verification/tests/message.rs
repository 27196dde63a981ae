use sony_wf1000xm5::frame_parser::{FrameParser, FrameParserResult};
use sony_wf1000xm5::message::{parse_message, ParseMessageError};
use sony_wf1000xm5::MessageType;

#[test]
fn parse_init_response() {
    // taken from hci logs
    let bytes = [0x3e, 0x1, 0x1, 0x0, 0x0, 0x0, 0x0, 0x2, 0x3c];
    let mut parser = FrameParser::new();
    match parser.parse(&bytes) {
        FrameParserResult::Ready { consumed, .. } => {
            let buf = parser.buffer();
            println!("got: {:x?}", buf);
            let msg = parse_message(buf).unwrap();
            assert_eq!(msg.kind, MessageType::Ack);
            assert_eq!(msg.seq_num, 1);
            assert_eq!(msg.payload, []);
            assert_eq!(consumed, bytes.len());
        }

        FrameParserResult::Incomplete { bytes_needed } => {
            unreachable!("bytes needed: {:?}", bytes_needed);
        }

        FrameParserResult::Error { err, consumed } => {
            unreachable!("err: {err:?}, consumed: {consumed}");
        }
    }
}

#[test]
fn short_frame_is_refused() {
    assert!(matches!(
        parse_message(&[0x3e, 0x01, 0x01, 0, 0, 0, 0, 0x02]),
        Err(ParseMessageError::NotEnoughBytes)
    ));
    assert!(matches!(parse_message(&[]), Err(ParseMessageError::NotEnoughBytes)));
}

#[test]
fn unknown_type_is_told_before_the_checksum() {
    // both the type and the checksum are wrong
    match parse_message(&[0x3e, 0x32, 0x02, 0, 0, 0, 1, 0x77, 0x00, 0x3c]) {
        Err(ParseMessageError::UnknownMessageType { msg_type, seq_num, payload }) => {
            assert_eq!(msg_type, 0x32);
            assert_eq!(seq_num, 0x02);
            assert_eq!(payload, [0x77]);
        }
        other => panic!("unexpected: {other:?}"),
    }
}

#[test]
fn wrong_checksum_is_refused() {
    match parse_message(&[0x3e, 0x0c, 0x01, 0, 0, 0, 1, 0x01, 0x00, 0x3c]) {
        Err(ParseMessageError::ChecksumFailed { got, expected, msg }) => {
            assert_eq!(got, 0x00);
            assert_eq!(expected, 0x0f);
            assert_eq!(msg.kind, MessageType::Command1);
            assert_eq!(msg.seq_num, 1);
            assert_eq!(msg.payload, [0x01]);
        }
        other => panic!("unexpected: {other:?}"),
    }
    let msg = parse_message(&[0x3e, 0x0c, 0x01, 0, 0, 0, 1, 0x01, 0x0f, 0x3c]).unwrap();
    assert_eq!(msg.kind, MessageType::Command1);
    assert_eq!(msg.payload, [0x01]);
}
