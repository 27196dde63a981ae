//! Outbound commands and how they are laid out on the wire.

use vstd::prelude::*;
use crate::frame::{be_bytes, escape, escape_byte, frame_core, wire_frame};
use crate::{checksum, MessageType, ESCAPE_BYTE, ESCAPE_MASK, MESSAGE_HEADER, MESSAGE_TRAILER};

verus! {

/// Equalizer presets known to the earbuds.
#[derive(Clone, Copy, Debug, PartialEq, Eq, Structural)]
pub enum EqualizerPreset {
    Off,
    Bright,
    Excited,
    Mellow,
    Relaxed,
    Vocal,
    TrebleBoost,
    BassBoost,
    Speech,
    Manual,
    Custom1,
    Custom2,
}

impl EqualizerPreset {
    /// The byte that stands for this preset on the wire.
    pub open spec fn byte(self) -> u8 {
        match self {
            EqualizerPreset::Off => 0x00,
            EqualizerPreset::Bright => 0x10,
            EqualizerPreset::Excited => 0x11,
            EqualizerPreset::Mellow => 0x12,
            EqualizerPreset::Relaxed => 0x13,
            EqualizerPreset::Vocal => 0x14,
            EqualizerPreset::TrebleBoost => 0x15,
            EqualizerPreset::BassBoost => 0x16,
            EqualizerPreset::Speech => 0x17,
            EqualizerPreset::Manual => 0xa0,
            EqualizerPreset::Custom1 => 0xa1,
            EqualizerPreset::Custom2 => 0xa2,
        }
    }

    /// The preset that `byte` stands for, if any.
    pub open spec fn of_byte(byte: u8) -> Option<Self> {
        if byte == 0x00 {
            Some(EqualizerPreset::Off)
        } else if byte == 0x10 {
            Some(EqualizerPreset::Bright)
        } else if byte == 0x11 {
            Some(EqualizerPreset::Excited)
        } else if byte == 0x12 {
            Some(EqualizerPreset::Mellow)
        } else if byte == 0x13 {
            Some(EqualizerPreset::Relaxed)
        } else if byte == 0x14 {
            Some(EqualizerPreset::Vocal)
        } else if byte == 0x15 {
            Some(EqualizerPreset::TrebleBoost)
        } else if byte == 0x16 {
            Some(EqualizerPreset::BassBoost)
        } else if byte == 0x17 {
            Some(EqualizerPreset::Speech)
        } else if byte == 0xa0 {
            Some(EqualizerPreset::Manual)
        } else if byte == 0xa1 {
            Some(EqualizerPreset::Custom1)
        } else if byte == 0xa2 {
            Some(EqualizerPreset::Custom2)
        } else {
            None
        }
    }

    /// Decodes a preset byte; `None` for a byte that names no preset.
    pub fn from_byte(byte: u8) -> (preset: Option<Self>)
        ensures
            preset == Self::of_byte(byte),
            preset matches Some(p) ==> p.byte() == byte,
    {
        match byte {
            0x00 => Some(EqualizerPreset::Off),
            0x10 => Some(EqualizerPreset::Bright),
            0x11 => Some(EqualizerPreset::Excited),
            0x12 => Some(EqualizerPreset::Mellow),
            0x13 => Some(EqualizerPreset::Relaxed),
            0x14 => Some(EqualizerPreset::Vocal),
            0x15 => Some(EqualizerPreset::TrebleBoost),
            0x16 => Some(EqualizerPreset::BassBoost),
            0x17 => Some(EqualizerPreset::Speech),
            0xa0 => Some(EqualizerPreset::Manual),
            0xa1 => Some(EqualizerPreset::Custom1),
            0xa2 => Some(EqualizerPreset::Custom2),
            _ => None,
        }
    }

    /// Encodes this preset as its wire byte.
    pub fn to_byte(self) -> (byte: u8)
        ensures
            byte == self.byte(),
            Self::of_byte(byte) == Some(self),
    {
        match self {
            EqualizerPreset::Off => 0x00,
            EqualizerPreset::Bright => 0x10,
            EqualizerPreset::Excited => 0x11,
            EqualizerPreset::Mellow => 0x12,
            EqualizerPreset::Relaxed => 0x13,
            EqualizerPreset::Vocal => 0x14,
            EqualizerPreset::TrebleBoost => 0x15,
            EqualizerPreset::BassBoost => 0x16,
            EqualizerPreset::Speech => 0x17,
            EqualizerPreset::Manual => 0xa0,
            EqualizerPreset::Custom1 => 0xa1,
            EqualizerPreset::Custom2 => 0xa2,
        }
    }
}

/// Noise-cancelling mode.
#[derive(Clone, Copy, Debug, PartialEq, Eq, Structural)]
pub enum AncMode {
    Off,
    ActiveNoiseCanceling,
    AmbientSound,
}

/// Which battery a status request or report is about.
#[derive(Clone, Copy, Debug, PartialEq, Eq, Structural)]
pub enum BatteryType {
    Headphones,
    Case,
}

impl BatteryType {
    /// The byte sent to ask for this battery.
    pub open spec fn byte(self) -> u8 {
        match self {
            BatteryType::Headphones => 0x01,
            BatteryType::Case => 0x0a,
        }
    }

    /// The battery that `byte` stands for in a report, if any. The earbuds
    /// answer with either `0x01` or `0x09` for themselves.
    pub open spec fn of_byte(byte: u8) -> Option<Self> {
        if byte == 0x01 || byte == 0x09 {
            Some(BatteryType::Headphones)
        } else if byte == 0x0a {
            Some(BatteryType::Case)
        } else {
            None
        }
    }

    /// Decodes a battery-kind byte; `None` for a byte that names no battery.
    pub fn from_byte(byte: u8) -> (battery: Option<Self>)
        ensures
            battery == Self::of_byte(byte),
    {
        match byte {
            0x01 | 0x09 => Some(BatteryType::Headphones),
            0x0a => Some(BatteryType::Case),
            _ => None,
        }
    }

    /// Encodes this battery kind as its request byte.
    pub fn to_byte(self) -> (byte: u8)
        ensures
            byte == self.byte(),
            Self::of_byte(byte) == Some(self),
    {
        match self {
            BatteryType::Headphones => 0x01,
            BatteryType::Case => 0x0a,
        }
    }
}

/// A request to the earbuds.
#[derive(Clone, Copy, Debug, PartialEq, Eq, Structural)]
pub enum Command {
    /// Opens the session.
    Init,
    /// Confirms receipt of a frame from the earbuds.
    Ack,
    AncSet {
        dragging_ambient_sound_slider: bool,
        mode: AncMode,
        ambient_sound_voice_filtering: bool,
        /// At most [`MAX_AMBIENT_LEVEL`].
        ambient_sound_level: usize,
    },
    GetAncStatus,
    ChangeEqualizerPreset { preset: EqualizerPreset },
    /// Sets the six bands of the manual preset; each level lies within
    /// [`MAX_BAND_LEVEL`] of zero.
    ChangeEqualizerSetting {
        bass_level: i8,
        band_400: i8,
        band_1000: i8,
        band_2500: i8,
        band_6300: i8,
        band_16000: i8,
    },
    GetBatteryStatus { battery_type: BatteryType },
    GetEqualizerSettings,
    GetCodec,
}

/// The loudest ambient sound level the earbuds accept.
pub const MAX_AMBIENT_LEVEL: usize = 20;

/// The largest boost or cut, in either direction, of an equalizer band.
pub const MAX_BAND_LEVEL: i8 = 10;

/// Opcode that sets the equalizer, by preset or band by band.
pub const EQUALIZER_SET: u8 = 0x58;

/// Opcode that sets the noise-cancelling mode.
pub const ANC_SET: u8 = 0x68;

/// Opcode that asks for the noise-cancelling mode.
pub const ANC_STATUS_GET: u8 = 0x66;

/// Names the ambient sound control that the noise-cancelling opcodes
/// address.
pub const SUPPORTS_AMBIENT_SOUND_CONTROL_2: u8 = 0x17;

/// Opcode that asks for a battery level.
pub const GET_BATTERY_STATUS: u8 = 0x22;

/// Opcode that asks for the equalizer settings.
pub const EQUALIZER_GET: u8 = 0x56;

/// Opcode that asks for the codec in use.
pub const CODEC_GET: u8 = 0x12;

/// How many band levels an equalizer setting carries.
pub const EQUALIZER_BANDS: u8 = 6;

/// Whether `level` is an equalizer band level the earbuds accept.
pub open spec fn band_in_range(level: i8) -> bool {
    -MAX_BAND_LEVEL <= level <= MAX_BAND_LEVEL
}

/// The byte that carries band level `level`: the level shifted up by ten.
pub open spec fn band_byte(level: i8) -> u8 {
    (level + 10) as u8
}

/// `1` for `true`, `0` for `false`.
pub open spec fn flag_byte(flag: bool) -> u8 {
    if flag {
        1
    } else {
        0
    }
}

impl Command {
    /// Whether every parameter of this command is within the range the
    /// earbuds accept.
    pub open spec fn valid(self) -> bool {
        match self {
            Command::AncSet { ambient_sound_level, .. } => ambient_sound_level <= MAX_AMBIENT_LEVEL,
            Command::ChangeEqualizerSetting {
                bass_level,
                band_400,
                band_1000,
                band_2500,
                band_6300,
                band_16000,
            } => {
                &&& band_in_range(bass_level)
                &&& band_in_range(band_400)
                &&& band_in_range(band_1000)
                &&& band_in_range(band_2500)
                &&& band_in_range(band_6300)
                &&& band_in_range(band_16000)
            },
            _ => true,
        }
    }

    /// The payload bytes of this command: opcode bytes, then parameters.
    pub open spec fn body(self) -> Seq<u8> {
        match self {
            Command::Init => seq![0u8, 0u8],
            Command::Ack => Seq::empty(),
            Command::AncSet {
                dragging_ambient_sound_slider,
                mode,
                ambient_sound_voice_filtering,
                ambient_sound_level,
            } => seq![
                ANC_SET,
                SUPPORTS_AMBIENT_SOUND_CONTROL_2,
                flag_byte(!dragging_ambient_sound_slider),
                flag_byte(mode != AncMode::Off),
                flag_byte(mode == AncMode::AmbientSound),
                flag_byte(ambient_sound_voice_filtering),
                ambient_sound_level as u8,
            ],
            Command::GetAncStatus => seq![ANC_STATUS_GET, SUPPORTS_AMBIENT_SOUND_CONTROL_2],
            Command::ChangeEqualizerPreset { preset } => seq![
                EQUALIZER_SET,
                0u8,
                preset.byte(),
                0u8,
            ],
            Command::ChangeEqualizerSetting {
                bass_level,
                band_400,
                band_1000,
                band_2500,
                band_6300,
                band_16000,
            } => seq![
                EQUALIZER_SET,
                0u8,
                EqualizerPreset::Manual.byte(),
                EQUALIZER_BANDS,
                band_byte(bass_level),
                band_byte(band_400),
                band_byte(band_1000),
                band_byte(band_2500),
                band_byte(band_6300),
                band_byte(band_16000),
            ],
            Command::GetBatteryStatus { battery_type } => seq![
                GET_BATTERY_STATUS,
                battery_type.byte(),
            ],
            Command::GetEqualizerSettings => seq![EQUALIZER_GET, 0u8],
            Command::GetCodec => seq![CODEC_GET, 2u8],
        }
    }

    /// The kind of frame that carries this command.
    pub open spec fn message_type(self) -> MessageType {
        match self {
            Command::Ack => MessageType::Ack,
            _ => MessageType::Command1,
        }
    }

    /// The sequence byte of the frame that carries this command when the
    /// session's sequence number is `seq_number`. An acknowledgement carries
    /// `1 - seq_number` modulo 256, where `seq_number` is that of the frame
    /// it confirms; every other command carries `seq_number` itself.
    pub open spec fn seq_byte(self, seq_number: u8) -> u8 {
        match self {
            Command::Ack => ((1 - seq_number) % 256) as u8,
            _ => seq_number,
        }
    }

    /// The frame that carries this command, as it travels on the wire.
    pub open spec fn frame(self, seq_number: u8) -> Seq<u8> {
        wire_frame(self.message_type().byte(), self.seq_byte(seq_number), self.body())
    }

    /// Whether every parameter of this command is within the range the
    /// earbuds accept.
    pub fn is_valid(&self) -> (ok: bool)
        ensures
            ok == self.valid(),
    {
        match self {
            Command::AncSet { ambient_sound_level, .. } => *ambient_sound_level
                <= MAX_AMBIENT_LEVEL,
            Command::ChangeEqualizerSetting {
                bass_level,
                band_400,
                band_1000,
                band_2500,
                band_6300,
                band_16000,
            } => {
                level_in_range(*bass_level) && level_in_range(*band_400) && level_in_range(
                    *band_1000,
                ) && level_in_range(*band_2500) && level_in_range(*band_6300) && level_in_range(
                    *band_16000,
                )
            },
            _ => true,
        }
    }

    /// Encodes the payload bytes of this command.
    pub fn to_bytes(&self) -> (out: Vec<u8>)
        requires
            self.valid(),
        ensures
            out@ == self.body(),
    {
        match self {
            Command::Init => {
                vec![0, 0]
            },
            Command::Ack => {
                Vec::new()
            },
            Command::AncSet {
                dragging_ambient_sound_slider,
                mode,
                ambient_sound_voice_filtering,
                ambient_sound_level,
            } => {
                let mut out: Vec<u8> = vec![
                    ANC_SET,
                    SUPPORTS_AMBIENT_SOUND_CONTROL_2,
                    if *dragging_ambient_sound_slider {
                        0
                    } else {
                        1
                    },
                ];
                match mode {
                    AncMode::Off => {
                        out.push(0);
                        out.push(0);
                    },
                    AncMode::ActiveNoiseCanceling => {
                        out.push(1);
                        out.push(0);
                    },
                    AncMode::AmbientSound => {
                        out.push(1);
                        out.push(1);
                    },
                }
                out.push(
                    if *ambient_sound_voice_filtering {
                        1
                    } else {
                        0
                    },
                );
                out.push(*ambient_sound_level as u8);
                out
            },
            Command::GetAncStatus => {
                vec![ANC_STATUS_GET, SUPPORTS_AMBIENT_SOUND_CONTROL_2]
            },
            Command::ChangeEqualizerPreset { preset } => {
                vec![EQUALIZER_SET, 0, preset.to_byte(), 0]
            },
            Command::ChangeEqualizerSetting {
                bass_level,
                band_400,
                band_1000,
                band_2500,
                band_6300,
                band_16000,
            } => {
                vec![
                    EQUALIZER_SET,
                    0,
                    EqualizerPreset::Manual.to_byte(),
                    EQUALIZER_BANDS,
                    encode_band(*bass_level),
                    encode_band(*band_400),
                    encode_band(*band_1000),
                    encode_band(*band_2500),
                    encode_band(*band_6300),
                    encode_band(*band_16000),
                ]
            },
            Command::GetBatteryStatus { battery_type } => {
                vec![GET_BATTERY_STATUS, battery_type.to_byte()]
            },
            Command::GetEqualizerSettings => {
                vec![EQUALIZER_GET, 0]
            },
            Command::GetCodec => {
                vec![CODEC_GET, 2]
            },
        }
    }
}

fn level_in_range(level: i8) -> (ok: bool)
    ensures
        ok == band_in_range(level),
{
    -MAX_BAND_LEVEL <= level && level <= MAX_BAND_LEVEL
}

fn encode_band(level: i8) -> (byte: u8)
    requires
        band_in_range(level),
    ensures
        byte == band_byte(level),
{
    (level + 10) as u8
}

/// Appends `byte` to `vec` as it appears inside the escaped region of a
/// frame.
pub fn push_escaped(vec: &mut Vec<u8>, byte: u8)
    ensures
        final(vec)@ == old(vec)@ + escape_byte(byte),
{
    if byte == MESSAGE_HEADER || byte == MESSAGE_TRAILER || byte == ESCAPE_BYTE {
        vec.push(ESCAPE_BYTE);
        vec.push(byte & ESCAPE_MASK);
    } else {
        vec.push(byte);
    }
}

/// Appends the four bytes of `n` to `vec`, most significant first.
fn push_be(vec: &mut Vec<u8>, n: u32)
    ensures
        final(vec)@ == old(vec)@ + be_bytes(n),
{
    assert((n >> 24u32) == n / 0x100_0000 && (n >> 16u32) & 0xff == n / 0x1_0000 % 0x100 && (n
        >> 8u32) & 0xff == n / 0x100 % 0x100 && n & 0xff == n % 0x100) by (bit_vector);
    vec.push((n >> 24u32) as u8);
    vec.push(((n >> 16u32) & 0xff) as u8);
    vec.push(((n >> 8u32) & 0xff) as u8);
    vec.push((n & 0xff) as u8);
}

/// Builds the frame that carries `command`, ready to be written to the
/// transport.
///
/// `seq_number` is the session's current sequence number or, for an
/// acknowledgement, the sequence number of the frame being confirmed.
pub fn build_command(command: &Command, seq_number: u8) -> (out: Vec<u8>)
    requires
        command.valid(),
    ensures
        out@ == command.frame(seq_number),
{
    let mut cmd = command.to_bytes();
    let message_type = match command {
        Command::Ack => MessageType::Ack,
        _ => MessageType::Command1,
    };
    let seq_byte = match command {
        Command::Ack => 1u8.wrapping_sub(seq_number),
        _ => seq_number,
    };
    let mut buf: Vec<u8> = Vec::new();
    buf.push(message_type.to_byte());
    buf.push(seq_byte);
    assert(cmd@.len() <= 10);
    push_be(&mut buf, cmd.len() as u32);
    buf.append(&mut cmd);
    assert(buf@ =~= frame_core(
        command.message_type().byte(),
        command.seq_byte(seq_number),
        command.body(),
    ));
    let sum = checksum(buf.as_slice());
    buf.push(sum);
    let mut out: Vec<u8> = Vec::new();
    out.push(MESSAGE_HEADER);
    let mut i: usize = 0;
    while i < buf.len()
        invariant
            i <= buf.len(),
            out@ == seq![MESSAGE_HEADER] + escape(buf@.take(i as int)),
        decreases buf.len() - i,
    {
        proof {
            assert(buf@.take(i + 1).drop_last() =~= buf@.take(i as int));
        }
        push_escaped(&mut out, buf[i]);
        i += 1;
    }
    proof {
        assert(buf@.take(i as int) =~= buf@);
    }
    out.push(MESSAGE_TRAILER);
    out
}

} // verus!
