use sony_wf1000xm5::command::{build_command, push_escaped, BatteryType, Command};
use sony_wf1000xm5::frame_parser::FramerParserError;
use sony_wf1000xm5::payload::{BatteryLevel, Codec, ParsePayloadError, Payload};
use sony_wf1000xm5::session::{
    judge, Action, Discarded, Event, Phase, Session, SessionError, Verdict, HANDSHAKE_RETRIES,
};
use sony_wf1000xm5::frame_parser::{InvalidChecksum, Message};
use sony_wf1000xm5::{checksum, MessageType};

/// A frame as the earbuds would write it.
fn device_frame(kind: u8, seq_num: u8, payload: &[u8]) -> Vec<u8> {
    let mut core = vec![kind, seq_num];
    core.extend_from_slice(&(payload.len() as u32).to_be_bytes());
    core.extend_from_slice(payload);
    core.push(checksum(&core));
    let mut wire = vec![0x3e];
    for byte in core {
        push_escaped(&mut wire, byte);
    }
    wire.push(0x3c);
    wire
}

/// A session that has shaken hands and had its handshake acknowledged.
fn running_session() -> Session {
    let mut session = Session::new();
    session.step(Event::Start);
    let actions = session.step(Event::Bytes(&device_frame(0x01, 1, &[])));
    assert_eq!(actions, vec![Action::Confirmed { seq_number: 1 }]);
    assert_eq!(session.phase(), Phase::Running);
    assert!(session.accepts_command());
    session
}

#[test]
fn handshake_sends_init_first() {
    let mut session = Session::new();
    assert_eq!(session.phase(), Phase::Idle);
    assert_eq!(session.seq_number(), 0);
    assert!(!session.is_waiting_for_ack());
    let actions = session.step(Event::Start);
    assert_eq!(
        actions,
        vec![Action::Send(vec![0x3e, 0x0c, 0, 0, 0, 0, 2, 0, 0, 0x0e, 0x3c])]
    );
    assert_eq!(session.phase(), Phase::Handshake { retries_left: 3 });
    assert!(session.is_waiting_for_ack());
    assert!(session.step(Event::Start).is_empty());
}

#[test]
fn handshake_retries_then_gives_up() {
    assert_eq!(HANDSHAKE_RETRIES, 3);
    let mut session = Session::new();
    session.step(Event::Start);
    let init = build_command(&Command::Init, 0);
    for left in [2, 1, 0] {
        assert_eq!(session.step(Event::Timeout), vec![Action::Resend(init.clone())]);
        assert_eq!(session.phase(), Phase::Handshake { retries_left: left });
    }
    assert_eq!(
        session.step(Event::Timeout),
        vec![Action::Fail(SessionError::HandshakeTimedOut)]
    );
    assert_eq!(session.phase(), Phase::Closed);
    assert!(session.step(Event::Timeout).is_empty());
    assert!(session.step(Event::Start).is_empty());
    assert!(session.step(Event::Command(Command::GetCodec)).is_empty());
}

#[test]
fn readable_ends_the_handshake() {
    let mut session = Session::new();
    session.step(Event::Start);
    assert!(session.step(Event::Readable).is_empty());
    assert_eq!(session.phase(), Phase::Running);
    assert!(session.step(Event::Timeout).is_empty());
    assert_eq!(session.phase(), Phase::Running);
    // the handshake itself is still unacknowledged
    assert!(!session.accepts_command());
}

#[test]
fn stop_ends_the_session_at_any_point() {
    let mut session = Session::new();
    assert_eq!(session.step(Event::Stop), vec![Action::Finish]);
    assert_eq!(session.phase(), Phase::Closed);

    let mut session = Session::new();
    session.step(Event::Start);
    assert_eq!(session.step(Event::Stop), vec![Action::Finish]);
    assert_eq!(session.phase(), Phase::Closed);

    let mut session = running_session();
    session.step(Event::Command(Command::GetCodec));
    assert_eq!(session.step(Event::Stop), vec![Action::Finish]);
    assert_eq!(session.phase(), Phase::Closed);
    assert!(session.step(Event::Stop).is_empty());
    assert!(session.step(Event::Bytes(&device_frame(0x01, 0, &[]))).is_empty());
}

#[test]
fn second_command_waits_for_the_ack_of_the_first() {
    let mut session = running_session();
    let first = Command::GetBatteryStatus { battery_type: BatteryType::Case };
    let second = Command::GetCodec;

    assert_eq!(
        session.step(Event::Command(first)),
        vec![Action::Send(build_command(&first, 1))]
    );
    assert!(session.is_waiting_for_ack());
    assert!(!session.accepts_command());

    // the second command is handed back, not written
    assert_eq!(session.step(Event::Command(second)), vec![Action::Hold(second)]);
    assert_eq!(session.step(Event::Command(second)), vec![Action::Hold(second)]);
    assert!(session.is_waiting_for_ack());

    // a report in between is acknowledged but frees nothing
    let report = device_frame(0x0c, 0, &[0x23, 0x0a, 80, 0, 0]);
    assert_eq!(
        session.step(Event::Bytes(&report)),
        vec![
            Action::Reply(build_command(&Command::Ack, 0)),
            Action::Forward(Payload::BatteryLevel(BatteryLevel::Case(80))),
        ]
    );
    assert_eq!(session.step(Event::Command(second)), vec![Action::Hold(second)]);

    // the acknowledgement of the first lets the second go, under the new sequence number
    assert_eq!(
        session.step(Event::Bytes(&device_frame(0x01, 0, &[]))),
        vec![Action::Confirmed { seq_number: 0 }]
    );
    assert!(session.accepts_command());
    assert_eq!(session.seq_number(), 0);
    assert_eq!(
        session.step(Event::Command(second)),
        vec![Action::Send(build_command(&second, 0))]
    );
    assert!(session.is_waiting_for_ack());
}

#[test]
fn commands_are_held_before_the_session_runs() {
    let mut session = Session::new();
    assert_eq!(
        session.step(Event::Command(Command::GetCodec)),
        vec![Action::Hold(Command::GetCodec)]
    );
    session.step(Event::Start);
    assert_eq!(
        session.step(Event::Command(Command::GetCodec)),
        vec![Action::Hold(Command::GetCodec)]
    );
}

#[test]
fn report_is_acknowledged_and_forwarded() {
    let mut session = running_session();
    let report = device_frame(0x0c, 0x3d, &[0x13, 0x00, 0x10]);
    assert_eq!(
        session.step(Event::Bytes(&report)),
        vec![
            Action::Reply(build_command(&Command::Ack, 0x3d)),
            Action::Forward(Payload::Codec { codec: Codec::Ldac }),
        ]
    );
    // the sequence number of the session comes from acknowledgements only
    assert_eq!(session.seq_number(), 1);

    let pressure = device_frame(0x0e, 1, &[0x5b, 0x03, 0x42, 0x03]);
    assert_eq!(
        pressure,
        vec![0x3e, 0x0e, 0x01, 0, 0, 0, 4, 0x5b, 0x03, 0x42, 0x03, 0xb6, 0x3c]
    );
    assert_eq!(
        session.step(Event::Bytes(&pressure)),
        vec![
            Action::Reply(vec![0x3e, 0x01, 0x00, 0, 0, 0, 0, 0x01, 0x3c]),
            Action::Forward(Payload::SoundPressure { db: 0x42 }),
        ]
    );
}

#[test]
fn undecodable_report_is_still_acknowledged() {
    let mut session = running_session();
    let report = device_frame(0x0c, 3, &[0x77, 0x01]);
    assert_eq!(
        session.step(Event::Bytes(&report)),
        vec![
            Action::Reply(build_command(&Command::Ack, 3)),
            Action::Discard(Discarded::BadPayload(ParsePayloadError::UnknownPayloadType {
                kind: 0x77
            })),
        ]
    );
    let empty = device_frame(0x0c, 4, &[]);
    assert_eq!(
        session.step(Event::Bytes(&empty)),
        vec![
            Action::Reply(build_command(&Command::Ack, 4)),
            Action::Discard(Discarded::BadPayload(ParsePayloadError::Empty)),
        ]
    );
}

#[test]
fn damaged_frames_are_dropped_without_reply() {
    let mut session = running_session();
    session.step(Event::Command(Command::GetCodec));

    let mut bad_sum = device_frame(0x01, 5, &[]);
    let at = bad_sum.len() - 2;
    bad_sum[at] = bad_sum[at].wrapping_add(1);
    assert_eq!(
        session.step(Event::Bytes(&bad_sum)),
        vec![Action::Discard(Discarded::ChecksumFailed { got: 7, expected: 6 })]
    );
    assert!(session.is_waiting_for_ack());
    assert_eq!(session.seq_number(), 1);

    let unknown = device_frame(0x32, 2, &[]);
    assert_eq!(
        session.step(Event::Bytes(&unknown)),
        vec![Action::Discard(Discarded::UnknownMessageType { msg_type: 0x32 })]
    );
    assert!(session.is_waiting_for_ack());
    assert_eq!(session.phase(), Phase::Running);
}

#[test]
fn malformed_stream_ends_the_session() {
    let mut session = running_session();
    let mut chunk = device_frame(0x0c, 0, &[0x01]);
    chunk.push(0x00);
    chunk.extend_from_slice(&device_frame(0x01, 0, &[]));
    assert_eq!(
        session.step(Event::Bytes(&chunk)),
        vec![
            Action::Reply(build_command(&Command::Ack, 0)),
            Action::Forward(Payload::InitReply),
            Action::Fail(SessionError::MalformedFrame(FramerParserError::NoMessageHeader)),
        ]
    );
    assert_eq!(session.phase(), Phase::Closed);
    assert!(session.step(Event::Bytes(&device_frame(0x01, 0, &[]))).is_empty());
}

#[test]
fn every_frame_of_a_chunk_is_handled() {
    let mut session = Session::new();
    session.step(Event::Start);
    let mut chunk = device_frame(0x01, 1, &[]);
    chunk.extend_from_slice(&device_frame(0x0c, 1, &[0x01, 0x00]));
    chunk.extend_from_slice(&device_frame(0x0c, 0, &[0x23, 0x01, 50, 0, 60]));
    let half = device_frame(0x0c, 1, &[0x13, 0x00, 0x02]);
    chunk.extend_from_slice(&half[..4]);
    assert_eq!(
        session.step(Event::Bytes(&chunk)),
        vec![
            Action::Confirmed { seq_number: 1 },
            Action::Reply(build_command(&Command::Ack, 1)),
            Action::Forward(Payload::InitReply),
            Action::Reply(build_command(&Command::Ack, 0)),
            Action::Forward(Payload::BatteryLevel(BatteryLevel::Headphones {
                left: 50,
                right: 60
            })),
        ]
    );
    assert_eq!(session.phase(), Phase::Running);
    assert_eq!(
        session.step(Event::Bytes(&half[4..])),
        vec![
            Action::Reply(build_command(&Command::Ack, 1)),
            Action::Forward(Payload::Codec { codec: Codec::Aac }),
        ]
    );
}

#[test]
fn verdicts() {
    let frame = |kind, checksum| Message { kind, seq_num: 9, payload: &[0x13, 0x00, 0x01], checksum };
    assert_eq!(
        judge(&frame(Err(0x40), Ok(0))),
        Verdict::Discard(Discarded::UnknownMessageType { msg_type: 0x40 })
    );
    // an unknown type is told before a wrong checksum
    assert_eq!(
        judge(&frame(Err(0x40), Err(InvalidChecksum { expected: 1, got: 2 }))),
        Verdict::Discard(Discarded::UnknownMessageType { msg_type: 0x40 })
    );
    assert_eq!(
        judge(&frame(Ok(MessageType::Ack), Err(InvalidChecksum { expected: 1, got: 2 }))),
        Verdict::Discard(Discarded::ChecksumFailed { got: 2, expected: 1 })
    );
    assert_eq!(
        judge(&frame(Ok(MessageType::Ack), Ok(0))),
        Verdict::Confirmed { seq_number: 9 }
    );
    assert_eq!(
        judge(&frame(Ok(MessageType::Command1), Ok(0))),
        Verdict::Report { seq_num: 9, payload: Ok(Payload::Codec { codec: Codec::Sbc }) }
    );
    assert_eq!(
        judge(&frame(Ok(MessageType::Command2), Ok(0))),
        Verdict::Report {
            seq_num: 9,
            payload: Err(ParsePayloadError::UnknownPayloadType { kind: 0x13 })
        }
    );
}

#[test]
fn never_two_commands_in_flight() {
    // a scripted run: count what is sent and what is confirmed along the way
    let ack0 = device_frame(0x01, 0, &[]);
    let ack1 = device_frame(0x01, 1, &[]);
    let report = device_frame(0x0c, 1, &[0x01]);
    let events = [
        Event::Command(Command::GetCodec),
        Event::Start,
        Event::Command(Command::GetCodec),
        Event::Timeout,
        Event::Bytes(&ack1),
        Event::Bytes(&ack1),
        Event::Command(Command::GetCodec),
        Event::Command(Command::GetAncStatus),
        Event::Bytes(&report),
        Event::Command(Command::GetAncStatus),
        Event::Bytes(&ack0),
        Event::Command(Command::GetAncStatus),
        Event::Command(Command::GetEqualizerSettings),
        Event::Bytes(&ack1),
        Event::Stop,
        Event::Command(Command::GetEqualizerSettings),
    ];
    let mut session = Session::new();
    let mut in_flight = 0usize;
    let mut sent = 0;
    for event in events {
        for action in session.step(event) {
            match action {
                Action::Send(_) => {
                    in_flight += 1;
                    sent += 1;
                }
                Action::Confirmed { .. } => in_flight = in_flight.saturating_sub(1),
                _ => {}
            }
            assert!(in_flight <= 1);
            assert_eq!(in_flight == 1, session.is_waiting_for_ack());
        }
    }
    assert_eq!(sent, 3);
}
