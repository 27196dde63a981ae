use sony_wf1000xm5::command::{AncMode, EqualizerPreset};
use sony_wf1000xm5::payload::{
    parse_payload, BatteryLevel, Codec, ParsePayloadError, Payload, PayloadType,
};
use sony_wf1000xm5::MessageType;

#[test]
fn headphones_battery() {
    assert_eq!(
        parse_payload(&[0x23, 0x01, 0x55, 0x00, 0x00], MessageType::Command1),
        Ok(Payload::BatteryLevel(BatteryLevel::Headphones { left: 0x55, right: 0x00 }))
    );
    assert_eq!(
        parse_payload(&[0x25, 0x09, 40, 0x01, 70], MessageType::Command1),
        Ok(Payload::BatteryLevel(BatteryLevel::Headphones { left: 40, right: 70 }))
    );
}

#[test]
fn case_battery() {
    assert_eq!(
        parse_payload(&[0x23, 0x0a, 99, 0x00, 0x00], MessageType::Command1),
        Ok(Payload::BatteryLevel(BatteryLevel::Case(99)))
    );
}

#[test]
fn init_reply() {
    assert_eq!(parse_payload(&[0x01], MessageType::Command1), Ok(Payload::InitReply));
    assert_eq!(
        parse_payload(&[0x01, 0x00, 0x40, 0x10], MessageType::Command1),
        Ok(Payload::InitReply)
    );
}

#[test]
fn equalizer_levels_are_shifted_by_ten() {
    assert_eq!(
        parse_payload(&[0x57, 0, 0xa0, 6, 0, 20, 10, 9, 11, 15], MessageType::Command1),
        Ok(Payload::Equalizer {
            preset: EqualizerPreset::Manual,
            clear_bass: -10,
            band_400: 10,
            band_1000: 0,
            band_2500: -1,
            band_6300: 1,
            band_16000: 5,
        })
    );
    // bytes outside 0..=20 wrap around the range of a signed byte
    assert_eq!(
        parse_payload(&[0x59, 0, 0x16, 6, 137, 138, 255, 127, 128, 21], MessageType::Command1),
        Ok(Payload::Equalizer {
            preset: EqualizerPreset::BassBoost,
            clear_bass: 127,
            band_400: -128,
            band_1000: -11,
            band_2500: 117,
            band_6300: 118,
            band_16000: 11,
        })
    );
}

#[test]
fn anc_status_modes() {
    let status = |enabled, ambient, passthrough, level| {
        parse_payload(
            &[0x67, 0x17, 0x01, enabled, ambient, passthrough, level],
            MessageType::Command1,
        )
    };
    assert_eq!(
        status(0, 1, 1, 3),
        Ok(Payload::AncStatus {
            mode: AncMode::Off,
            ambient_sound_voice_passthrough: true,
            ambient_sound_level: 3,
        })
    );
    assert_eq!(
        status(1, 0, 0, 20),
        Ok(Payload::AncStatus {
            mode: AncMode::ActiveNoiseCanceling,
            ambient_sound_voice_passthrough: false,
            ambient_sound_level: 20,
        })
    );
    assert_eq!(
        status(1, 1, 2, 0),
        Ok(Payload::AncStatus {
            mode: AncMode::AmbientSound,
            ambient_sound_voice_passthrough: false,
            ambient_sound_level: 0,
        })
    );
    assert_eq!(
        parse_payload(&[0x69, 0x17, 0x01, 1, 1, 1, 7], MessageType::Command1),
        Ok(Payload::AncStatus {
            mode: AncMode::AmbientSound,
            ambient_sound_voice_passthrough: true,
            ambient_sound_level: 7,
        })
    );
}

#[test]
fn codecs() {
    let codec = |byte| parse_payload(&[0x13, 0x00, byte], MessageType::Command1);
    assert_eq!(codec(0x00), Ok(Payload::Codec { codec: Codec::Unknown }));
    assert_eq!(codec(0x01), Ok(Payload::Codec { codec: Codec::Sbc }));
    assert_eq!(codec(0x02), Ok(Payload::Codec { codec: Codec::Aac }));
    assert_eq!(codec(0x10), Ok(Payload::Codec { codec: Codec::Ldac }));
    assert_eq!(codec(0x20), Ok(Payload::Codec { codec: Codec::Aptx }));
    assert_eq!(codec(0x21), Ok(Payload::Codec { codec: Codec::AptxHd }));
    assert_eq!(codec(0x22), Err(ParsePayloadError::UnknownCodec { codec: 0x22 }));
    assert_eq!(
        parse_payload(&[0x15, 0x00, 0x10], MessageType::Command1),
        Ok(Payload::Codec { codec: Codec::Ldac })
    );
}

#[test]
fn codec_names() {
    assert_eq!(Codec::Unknown.as_str(), "unknown");
    assert_eq!(Codec::Sbc.as_str(), "SBC");
    assert_eq!(Codec::Aac.as_str(), "AAC");
    assert_eq!(Codec::Ldac.as_str(), "LDAC");
    assert_eq!(Codec::Aptx.as_str(), "APTX");
    assert_eq!(Codec::AptxHd.as_str(), "APTX HD");
}

#[test]
fn sound_pressure_namespace() {
    // from captured traffic: 3e0e0000000004590301006f3c and 3e0e010000000459030101713c
    assert_eq!(
        parse_payload(&[0x59, 0x03, 0x01, 0x00], MessageType::Command2),
        Ok(Payload::SoundPressureMeasureReply { is_on: true })
    );
    assert_eq!(
        parse_payload(&[0x59, 0x03, 0x01, 0x01], MessageType::Command2),
        Ok(Payload::SoundPressureMeasureReply { is_on: false })
    );
    // from captured traffic: 3e0e01000000045b034203b63c
    assert_eq!(
        parse_payload(&[0x5b, 0x03, 0x42, 0x03], MessageType::Command2),
        Ok(Payload::SoundPressure { db: 0x42 })
    );
}

#[test]
fn same_tag_differs_between_namespaces() {
    assert_eq!(
        PayloadType::from_byte(MessageType::Command1, 0x59),
        Some(PayloadType::EqualizerNotify)
    );
    assert_eq!(
        PayloadType::from_byte(MessageType::Command2, 0x59),
        Some(PayloadType::SoundPressureMeasureReply)
    );
    assert_eq!(PayloadType::from_byte(MessageType::Command2, 0x5b), Some(PayloadType::PressureGet));
    assert_eq!(PayloadType::from_byte(MessageType::Command1, 0x5b), None);
    assert_eq!(PayloadType::from_byte(MessageType::Command2, 0x23), None);
    assert_eq!(PayloadType::from_byte(MessageType::Ack, 0x01), None);
    assert_eq!(
        parse_payload(&[0x23, 0x01, 0x55, 0x00, 0x00], MessageType::Command2),
        Err(ParsePayloadError::UnknownPayloadType { kind: 0x23 })
    );
    assert_eq!(
        parse_payload(&[0x01], MessageType::Ack),
        Err(ParsePayloadError::UnknownPayloadType { kind: 0x01 })
    );
}

#[test]
fn every_error() {
    assert_eq!(parse_payload(&[], MessageType::Command1), Err(ParsePayloadError::Empty));
    assert_eq!(
        parse_payload(&[0x02], MessageType::Command1),
        Err(ParsePayloadError::UnknownPayloadType { kind: 0x02 })
    );
    assert_eq!(
        parse_payload(&[0x23, 0x07, 0, 0, 0], MessageType::Command1),
        Err(ParsePayloadError::UnknownBatteryType { battery: 0x07 })
    );
    assert_eq!(
        parse_payload(&[0x57, 0, 0x18, 6, 0, 0, 0, 0, 0, 0], MessageType::Command1),
        Err(ParsePayloadError::UnknownEqualizerPreset { preset: 0x18 })
    );
    assert_eq!(
        parse_payload(&[0x13, 0, 0x03], MessageType::Command1),
        Err(ParsePayloadError::UnknownCodec { codec: 0x03 })
    );
    assert_eq!(
        parse_payload(&[0x13, 0], MessageType::Command1),
        Err(ParsePayloadError::PayloadTooSmall { payload_type: PayloadType::CodecGet })
    );
}

#[test]
fn minimum_lengths_are_sharp() {
    let cases: [(MessageType, PayloadType, Vec<u8>); 10] = [
        (MessageType::Command1, PayloadType::BatteryLevel, vec![0x23, 0x01, 0, 0, 0]),
        (MessageType::Command1, PayloadType::BatteryLevelNotify, vec![0x25, 0x0a, 0, 0, 0]),
        (MessageType::Command1, PayloadType::Equalizer, vec![0x57, 0, 0, 6, 10, 10, 10, 10, 10, 10]),
        (
            MessageType::Command1,
            PayloadType::EqualizerNotify,
            vec![0x59, 0, 0, 6, 10, 10, 10, 10, 10, 10],
        ),
        (MessageType::Command1, PayloadType::AncStatus, vec![0x67, 0, 0, 0, 0, 0, 0]),
        (MessageType::Command1, PayloadType::AncStatusNotify, vec![0x69, 0, 0, 0, 0, 0, 0]),
        (MessageType::Command1, PayloadType::CodecGet, vec![0x13, 0, 0]),
        (MessageType::Command1, PayloadType::CodecNotify, vec![0x15, 0, 0]),
        (MessageType::Command2, PayloadType::SoundPressureMeasureReply, vec![0x59, 0, 0, 0]),
        (MessageType::Command2, PayloadType::PressureGet, vec![0x5b, 0, 0]),
    ];
    for (message_type, payload_type, payload) in cases {
        assert_eq!(payload.len(), payload_type.minimum_len());
        assert!(parse_payload(&payload, message_type).is_ok());
        assert_eq!(
            parse_payload(&payload[..payload.len() - 1], message_type),
            Err(ParsePayloadError::PayloadTooSmall { payload_type })
        );
    }
    assert_eq!(PayloadType::InitReply.minimum_len(), 1);
}
