//! Typed decoding of the payload carried by a command frame.

use vstd::prelude::*;
use crate::command::{AncMode, BatteryType, EqualizerPreset};
use crate::MessageType;

verus! {

/// The sub-type of a payload, resolved from the frame's message type and the
/// payload's first byte. The same tag byte means different things in the two
/// command namespaces.
#[derive(Clone, Copy, Debug, PartialEq, Eq, Structural)]
pub enum PayloadType {
    InitReply,
    BatteryLevel,
    BatteryLevelNotify,
    Equalizer,
    EqualizerNotify,
    AncStatus,
    AncStatusNotify,
    CodecGet,
    CodecNotify,
    SoundPressureMeasureReply,
    PressureGet,
}

impl PayloadType {
    /// The sub-type that tag `byte` names inside a frame of kind `msg_type`.
    pub open spec fn of_byte(msg_type: MessageType, byte: u8) -> Option<Self> {
        match msg_type {
            MessageType::Ack => None,
            MessageType::Command1 => {
                if byte == 0x01 {
                    Some(PayloadType::InitReply)
                } else if byte == 0x13 {
                    Some(PayloadType::CodecGet)
                } else if byte == 0x15 {
                    Some(PayloadType::CodecNotify)
                } else if byte == 0x23 {
                    Some(PayloadType::BatteryLevel)
                } else if byte == 0x25 {
                    Some(PayloadType::BatteryLevelNotify)
                } else if byte == 0x57 {
                    Some(PayloadType::Equalizer)
                } else if byte == 0x59 {
                    Some(PayloadType::EqualizerNotify)
                } else if byte == 0x67 {
                    Some(PayloadType::AncStatus)
                } else if byte == 0x69 {
                    Some(PayloadType::AncStatusNotify)
                } else {
                    None
                }
            },
            MessageType::Command2 => {
                if byte == 0x59 {
                    Some(PayloadType::SoundPressureMeasureReply)
                } else if byte == 0x5b {
                    Some(PayloadType::PressureGet)
                } else {
                    None
                }
            },
        }
    }

    /// The fewest bytes a payload of this sub-type may have, tag included.
    pub open spec fn min_len(self) -> nat {
        match self {
            PayloadType::InitReply => 1,
            PayloadType::BatteryLevel | PayloadType::BatteryLevelNotify => 5,
            PayloadType::Equalizer | PayloadType::EqualizerNotify => 10,
            PayloadType::AncStatus | PayloadType::AncStatusNotify => 7,
            PayloadType::CodecGet | PayloadType::CodecNotify => 3,
            PayloadType::SoundPressureMeasureReply => 4,
            PayloadType::PressureGet => 3,
        }
    }

    /// Resolves the payload sub-type from the frame's kind and the payload's
    /// tag byte. Acknowledgements carry no payload, so nothing resolves there.
    pub fn from_byte(msg_type: MessageType, byte: u8) -> (payload_type: Option<Self>)
        ensures
            payload_type == Self::of_byte(msg_type, byte),
    {
        match msg_type {
            MessageType::Ack => None,
            MessageType::Command1 => match byte {
                0x01 => Some(PayloadType::InitReply),
                0x13 => Some(PayloadType::CodecGet),
                0x15 => Some(PayloadType::CodecNotify),
                0x23 => Some(PayloadType::BatteryLevel),
                0x25 => Some(PayloadType::BatteryLevelNotify),
                0x57 => Some(PayloadType::Equalizer),
                0x59 => Some(PayloadType::EqualizerNotify),
                0x67 => Some(PayloadType::AncStatus),
                0x69 => Some(PayloadType::AncStatusNotify),
                _ => None,
            },
            MessageType::Command2 => match byte {
                0x59 => Some(PayloadType::SoundPressureMeasureReply),
                0x5b => Some(PayloadType::PressureGet),
                _ => None,
            },
        }
    }

    /// The fewest bytes a payload of this sub-type may have, tag included.
    pub fn minimum_len(self) -> (len: usize)
        ensures
            len == self.min_len(),
    {
        match self {
            PayloadType::InitReply => 1,
            PayloadType::BatteryLevel | PayloadType::BatteryLevelNotify => 5,
            PayloadType::Equalizer | PayloadType::EqualizerNotify => 10,
            PayloadType::AncStatus | PayloadType::AncStatusNotify => 7,
            PayloadType::CodecGet | PayloadType::CodecNotify => 3,
            PayloadType::SoundPressureMeasureReply => 4,
            PayloadType::PressureGet => 3,
        }
    }
}

/// A battery charge report, in percent as sent by the device.
#[derive(Clone, Copy, Debug, PartialEq, Eq, Structural)]
pub enum BatteryLevel {
    Case(usize),
    Headphones { left: usize, right: usize },
}

/// The Bluetooth audio codec in use.
#[derive(Clone, Copy, Debug, PartialEq, Eq, Structural)]
pub enum Codec {
    Unknown,
    Sbc,
    Aac,
    Ldac,
    Aptx,
    AptxHd,
}

impl Codec {
    /// The byte that stands for this codec on the wire.
    pub open spec fn byte(self) -> u8 {
        match self {
            Codec::Unknown => 0x00,
            Codec::Sbc => 0x01,
            Codec::Aac => 0x02,
            Codec::Ldac => 0x10,
            Codec::Aptx => 0x20,
            Codec::AptxHd => 0x21,
        }
    }

    /// The codec that `byte` stands for, if any.
    pub open spec fn of_byte(byte: u8) -> Option<Self> {
        if byte == 0x00 {
            Some(Codec::Unknown)
        } else if byte == 0x01 {
            Some(Codec::Sbc)
        } else if byte == 0x02 {
            Some(Codec::Aac)
        } else if byte == 0x10 {
            Some(Codec::Ldac)
        } else if byte == 0x20 {
            Some(Codec::Aptx)
        } else if byte == 0x21 {
            Some(Codec::AptxHd)
        } else {
            None
        }
    }

    /// The display name of this codec.
    pub open spec fn name(self) -> Seq<char> {
        match self {
            Codec::Unknown => "unknown"@,
            Codec::Sbc => "SBC"@,
            Codec::Aac => "AAC"@,
            Codec::Ldac => "LDAC"@,
            Codec::Aptx => "APTX"@,
            Codec::AptxHd => "APTX HD"@,
        }
    }

    /// Decodes a codec byte; `None` for a byte that names no codec.
    pub fn from_byte(byte: u8) -> (codec: Option<Self>)
        ensures
            codec == Self::of_byte(byte),
            codec matches Some(c) ==> c.byte() == byte,
    {
        match byte {
            0x00 => Some(Codec::Unknown),
            0x01 => Some(Codec::Sbc),
            0x02 => Some(Codec::Aac),
            0x10 => Some(Codec::Ldac),
            0x20 => Some(Codec::Aptx),
            0x21 => Some(Codec::AptxHd),
            _ => None,
        }
    }

    /// The display name of this codec.
    pub fn as_str(&self) -> (name: &'static str)
        ensures
            name@ == self.name(),
    {
        match self {
            Codec::Unknown => "unknown",
            Codec::Sbc => "SBC",
            Codec::Aac => "AAC",
            Codec::Ldac => "LDAC",
            Codec::Aptx => "APTX",
            Codec::AptxHd => "APTX HD",
        }
    }
}

/// A decoded report from the earbuds.
#[derive(Clone, Copy, Debug, PartialEq, Eq, Structural)]
pub enum Payload {
    InitReply,
    BatteryLevel(BatteryLevel),
    Equalizer {
        preset: EqualizerPreset,
        clear_bass: i8,
        band_400: i8,
        band_1000: i8,
        band_2500: i8,
        band_6300: i8,
        band_16000: i8,
    },
    AncStatus { mode: AncMode, ambient_sound_voice_passthrough: bool, ambient_sound_level: u8 },
    Codec { codec: Codec },
    SoundPressureMeasureReply { is_on: bool },
    SoundPressure { db: usize },
}

/// Why a payload could not be decoded.
#[derive(Clone, Copy, Debug, PartialEq, Eq, Structural)]
pub enum ParsePayloadError {
    /// The payload has no bytes at all.
    Empty,
    /// The tag byte names no sub-type in the frame's namespace.
    UnknownPayloadType { kind: u8 },
    UnknownBatteryType { battery: u8 },
    UnknownEqualizerPreset { preset: u8 },
    UnknownCodec { codec: u8 },
    /// The payload is shorter than its sub-type requires.
    PayloadTooSmall { payload_type: PayloadType },
}

/// The signed level that a band byte stands for: the byte minus ten, taken
/// modulo 256 into the range of `i8`. Bytes `0..=20` give `-10..=10`.
pub open spec fn band_level(byte: u8) -> i8 {
    if byte <= 137 {
        (byte - 10) as i8
    } else {
        (byte - 266) as i8
    }
}

/// The noise-cancelling mode that the two flag bytes of a status report give.
pub open spec fn anc_mode_of(enabled: u8, ambient: u8) -> AncMode {
    if enabled == 0 {
        AncMode::Off
    } else if ambient == 0 {
        AncMode::ActiveNoiseCanceling
    } else {
        AncMode::AmbientSound
    }
}

/// What the fields of a payload of sub-type `payload_type` decode to, given
/// that `payload` has at least `payload_type.min_len()` bytes.
pub open spec fn decode_fields(payload_type: PayloadType, payload: Seq<u8>) -> Result<
    Payload,
    ParsePayloadError,
> {
    match payload_type {
        PayloadType::InitReply => Ok(Payload::InitReply),
        PayloadType::BatteryLevel | PayloadType::BatteryLevelNotify => {
            match BatteryType::of_byte(payload[1]) {
                None => Err(ParsePayloadError::UnknownBatteryType { battery: payload[1] }),
                Some(BatteryType::Case) => Ok(
                    Payload::BatteryLevel(BatteryLevel::Case(payload[2] as usize)),
                ),
                Some(BatteryType::Headphones) => Ok(
                    Payload::BatteryLevel(
                        BatteryLevel::Headphones {
                            left: payload[2] as usize,
                            right: payload[4] as usize,
                        },
                    ),
                ),
            }
        },
        PayloadType::Equalizer | PayloadType::EqualizerNotify => {
            match EqualizerPreset::of_byte(payload[2]) {
                None => Err(ParsePayloadError::UnknownEqualizerPreset { preset: payload[2] }),
                Some(preset) => Ok(
                    Payload::Equalizer {
                        preset,
                        clear_bass: band_level(payload[4]),
                        band_400: band_level(payload[5]),
                        band_1000: band_level(payload[6]),
                        band_2500: band_level(payload[7]),
                        band_6300: band_level(payload[8]),
                        band_16000: band_level(payload[9]),
                    },
                ),
            }
        },
        PayloadType::AncStatus | PayloadType::AncStatusNotify => Ok(
            Payload::AncStatus {
                mode: anc_mode_of(payload[3], payload[4]),
                ambient_sound_voice_passthrough: payload[5] == 1,
                ambient_sound_level: payload[6],
            },
        ),
        PayloadType::CodecGet | PayloadType::CodecNotify => {
            match Codec::of_byte(payload[2]) {
                None => Err(ParsePayloadError::UnknownCodec { codec: payload[2] }),
                Some(codec) => Ok(Payload::Codec { codec }),
            }
        },
        PayloadType::SoundPressureMeasureReply => Ok(
            Payload::SoundPressureMeasureReply { is_on: payload[3] == 0 },
        ),
        PayloadType::PressureGet => Ok(Payload::SoundPressure { db: payload[2] as usize }),
    }
}

/// What `payload`, carried by a frame of kind `message_type`, decodes to.
pub open spec fn decode_payload(payload: Seq<u8>, message_type: MessageType) -> Result<
    Payload,
    ParsePayloadError,
> {
    if payload.len() == 0 {
        Err(ParsePayloadError::Empty)
    } else {
        match PayloadType::of_byte(message_type, payload[0]) {
            None => Err(ParsePayloadError::UnknownPayloadType { kind: payload[0] }),
            Some(payload_type) => {
                if payload.len() < payload_type.min_len() {
                    Err(ParsePayloadError::PayloadTooSmall { payload_type })
                } else {
                    decode_fields(payload_type, payload)
                }
            },
        }
    }
}

/// Whether every byte of `payload` that selects among named values (a
/// battery kind, a preset, a codec) names one, given that `payload` has at
/// least `payload_type.min_len()` bytes.
pub open spec fn selectors_known(payload_type: PayloadType, payload: Seq<u8>) -> bool {
    match payload_type {
        PayloadType::BatteryLevel | PayloadType::BatteryLevelNotify => BatteryType::of_byte(
            payload[1],
        ) is Some,
        PayloadType::Equalizer | PayloadType::EqualizerNotify => EqualizerPreset::of_byte(
            payload[2],
        ) is Some,
        PayloadType::CodecGet | PayloadType::CodecNotify => Codec::of_byte(payload[2]) is Some,
        _ => true,
    }
}

/// The minimum length of a sub-type is a sharp boundary: a payload whose
/// tag resolves to a sub-type is refused as too small exactly when it is
/// shorter than that sub-type's minimum, and from the minimum length on it
/// decodes whenever its selector bytes name known values.
pub proof fn lemma_length_boundary(payload: Seq<u8>, message_type: MessageType)
    requires
        payload.len() > 0,
        PayloadType::of_byte(message_type, payload[0]) is Some,
    ensures
        ({
            let payload_type = PayloadType::of_byte(message_type, payload[0])->Some_0;
            let decoded = decode_payload(payload, message_type);
            &&& payload.len() < payload_type.min_len() <==> decoded == Err::<
                Payload,
                ParsePayloadError,
            >(ParsePayloadError::PayloadTooSmall { payload_type })
            &&& payload.len() >= payload_type.min_len() ==> (decoded is Ok <==> selectors_known(
                payload_type,
                payload,
            ))
        }),
{
}

/// Decodes one band byte of an equalizer report.
fn decode_band(byte: u8) -> (level: i8)
    ensures
        level == band_level(byte),
{
    if byte <= 137 {
        (byte as i16 - 10) as i8
    } else {
        (byte as i16 - 266) as i8
    }
}

/// Decodes the payload of a command frame of kind `message_type`.
///
/// A payload either decodes fully or yields one specific error; bytes past
/// the fields of its sub-type are ignored.
pub fn parse_payload(payload: &[u8], message_type: MessageType) -> (result: Result<
    Payload,
    ParsePayloadError,
>)
    ensures
        result == decode_payload(payload@, message_type),
{
    if payload.len() == 0 {
        return Err(ParsePayloadError::Empty);
    }
    let payload_type = match PayloadType::from_byte(message_type, payload[0]) {
        Some(payload_type) => payload_type,
        None => {
            return Err(ParsePayloadError::UnknownPayloadType { kind: payload[0] });
        },
    };
    if payload.len() < payload_type.minimum_len() {
        return Err(ParsePayloadError::PayloadTooSmall { payload_type });
    }
    match payload_type {
        PayloadType::InitReply => Ok(Payload::InitReply),
        PayloadType::BatteryLevel | PayloadType::BatteryLevelNotify => {
            match BatteryType::from_byte(payload[1]) {
                None => Err(ParsePayloadError::UnknownBatteryType { battery: payload[1] }),
                Some(BatteryType::Case) => Ok(
                    Payload::BatteryLevel(BatteryLevel::Case(payload[2] as usize)),
                ),
                Some(BatteryType::Headphones) => Ok(
                    Payload::BatteryLevel(
                        BatteryLevel::Headphones {
                            left: payload[2] as usize,
                            right: payload[4] as usize,
                        },
                    ),
                ),
            }
        },
        PayloadType::Equalizer | PayloadType::EqualizerNotify => {
            match EqualizerPreset::from_byte(payload[2]) {
                None => Err(ParsePayloadError::UnknownEqualizerPreset { preset: payload[2] }),
                Some(preset) => Ok(
                    Payload::Equalizer {
                        preset,
                        clear_bass: decode_band(payload[4]),
                        band_400: decode_band(payload[5]),
                        band_1000: decode_band(payload[6]),
                        band_2500: decode_band(payload[7]),
                        band_6300: decode_band(payload[8]),
                        band_16000: decode_band(payload[9]),
                    },
                ),
            }
        },
        PayloadType::AncStatus | PayloadType::AncStatusNotify => {
            let mode = if payload[3] == 0 {
                AncMode::Off
            } else if payload[4] == 0 {
                AncMode::ActiveNoiseCanceling
            } else {
                AncMode::AmbientSound
            };
            Ok(
                Payload::AncStatus {
                    mode,
                    ambient_sound_voice_passthrough: payload[5] == 1,
                    ambient_sound_level: payload[6],
                },
            )
        },
        PayloadType::CodecGet | PayloadType::CodecNotify => {
            match Codec::from_byte(payload[2]) {
                None => Err(ParsePayloadError::UnknownCodec { codec: payload[2] }),
                Some(codec) => Ok(Payload::Codec { codec }),
            }
        },
        PayloadType::SoundPressureMeasureReply => Ok(
            Payload::SoundPressureMeasureReply { is_on: payload[3] == 0 },
        ),
        PayloadType::PressureGet => Ok(Payload::SoundPressure { db: payload[2] as usize }),
    }
}

} // verus!
