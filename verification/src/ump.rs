//! Universal MIDI Packet (UMP): 32/64/128-bit packet parse and encode.
//!
//! `spec_encode_ump` gives the four words a message is packed into and
//! `spec_parse_ump` the message that four words hold.
use vstd::prelude::*;

use crate::error::{invalid_data, ControlError};
use crate::messages::{
    sysex_chunk, DataFormat, DataMessage, FlexDataMessage, FlexSpec, Midi1ChannelVoice, Midi1CvSpec,
    Midi2ChannelVoice, Midi2Message, Midi2Spec, SysExMessage, SysExSpec, SystemCommonMessage,
    UtilityMessage,
};
use crate::midi1::{spec_status, Midi1Message, Midi1Spec};
use crate::text::push_char;

verus! {

/// A Universal MIDI Packet: up to four 32-bit words.
#[derive(Debug, Clone, Copy, PartialEq, Eq, Hash, Default)]
pub struct Ump {
    /// Raw packet words, big-endian message semantics.
    pub words: [u32; 4],
}

/// The message type nibble of a first word.
pub open spec fn spec_type_of(w0: u32) -> u8 {
    (w0 >> 28u32) as u8
}

/// The number of words a packet of message type `t` occupies.
pub open spec fn spec_num_words(t: u8) -> nat {
    if t <= 0x2 {
        1
    } else if t == 0x3 || t == 0x4 {
        2
    } else if t == 0x5 || t == 0xD || t == 0xE || t == 0xF {
        4
    } else {
        1
    }
}

/// Four words, zero-padded from the front of `words`.
pub open spec fn spec_pad_words(words: Seq<u32>) -> Seq<u32> {
    Seq::new(4, |i: int| if i < words.len() { words[i] } else { 0u32 })
}

/// The 7-bit byte `i` of a sysex7 chunk, placed as a word field value.
pub open spec fn sysex_field(data: Seq<u8>, i: int) -> u32 {
    if i < data.len() {
        (data[i] & 0x7F) as u32
    } else {
        0u32
    }
}

/// The 7-bit text byte `i`, placed as a word field value.
pub open spec fn text_field(bytes: Seq<u8>, i: int) -> u32 {
    if i < bytes.len() && i < 12 {
        (bytes[i] & 0x7F) as u32
    } else {
        0u32
    }
}

/// A word holding four text fields starting at byte `base`.
pub open spec fn text_word(bytes: Seq<u8>, base: int) -> u32 {
    (text_field(bytes, base) << 24u32) | (text_field(bytes, base + 1) << 16u32) | (text_field(
        bytes,
        base + 2,
    ) << 8u32) | text_field(bytes, base + 3)
}

/// The header word of a flex-data message.
pub open spec fn spec_flex_word0(group: u8, format: DataFormat, bank: u8, status: u8, channel: u8) -> u32 {
    (0xDu32 << 28u32) | ((group as u32) << 24u32) | ((format.spec_to_bits() as u32) << 22u32) | (((
    bank & 0x3) as u32) << 20u32) | (((channel & 0xF) as u32) << 8u32) | ((status & 0x7F) as u32)
}

/// The words of a flex-data message.
pub open spec fn spec_encode_flex(f: FlexSpec) -> Seq<u32> {
    match f {
        FlexSpec::SetTempo { group, format, tempo } => seq![
            spec_flex_word0(group, format, 1, 0, 0),
            tempo,
            0u32,
            0u32,
        ],
        FlexSpec::TimeSignature { group, format, numerator, denominator_exponent, thirty_seconds } => seq![
            spec_flex_word0(group, format, 1, 1, 0),
            ((numerator as u32) << 24u32) | (((denominator_exponent & 0x7F) as u32) << 16u32) | (((
            thirty_seconds & 0x7F) as u32) << 8u32),
            0u32,
            0u32,
        ],
        FlexSpec::Text { group, format, bank, status, channel, text } => {
            let bytes = vstd::utf8::encode_utf8(text);
            seq![
                spec_flex_word0(group, format, bank, status, channel),
                text_word(bytes, 0),
                text_word(bytes, 4),
                text_word(bytes, 8),
            ]
        },
        FlexSpec::Other { group, format, bank, status, channel, data } => data.update(
            0,
            spec_flex_word0(group, format, bank, status, channel),
        ),
    }
}

/// The low data bits of a system common first word.
pub open spec fn spec_common_body(s: SystemCommonMessage) -> u32 {
    match s {
        SystemCommonMessage::TimeCodeQuarterFrame { quarter_frame, .. } => 0x00F1_0000u32 | (((
        quarter_frame & 0x7F) as u32) << 8u32),
        SystemCommonMessage::SongPositionPointer { position, .. } => 0x00F2_0000u32 | (((position
            & 0x7F) as u32) << 8u32) | (((position >> 7u16) & 0x7F) as u32),
        SystemCommonMessage::SongSelect { song, .. } => 0x00F3_0000u32 | (((song & 0x7F) as u32)
            << 8u32),
        SystemCommonMessage::TuneRequest { .. } => 0x00F6_0000u32,
        SystemCommonMessage::TimingClock { .. } => 0x00F8_0000u32,
        SystemCommonMessage::Start { .. } => 0x00FA_0000u32,
        SystemCommonMessage::Continue { .. } => 0x00FB_0000u32,
        SystemCommonMessage::Stop { .. } => 0x00FC_0000u32,
        SystemCommonMessage::ActiveSensing { .. } => 0x00FE_0000u32,
        SystemCommonMessage::SystemReset { .. } => 0x00FF_0000u32,
    }
}

/// The low data bits of a MIDI 1.0 channel-voice UMP word.
pub open spec fn spec_midi1_body(m: Midi1Spec) -> u32 {
    match m {
        Midi1Spec::NoteOff { note, velocity, .. } => ((note as u32) << 8u32) | (velocity as u32),
        Midi1Spec::NoteOn { note, velocity, .. } => ((note as u32) << 8u32) | (velocity as u32),
        Midi1Spec::PolyphonicKeyPressure { note, pressure, .. } => ((note as u32) << 8u32) | (
        pressure as u32),
        Midi1Spec::ControlChange { controller, value, .. } => ((controller as u32) << 8u32) | (
        value as u32),
        Midi1Spec::ProgramChange { program, .. } => (program as u32) << 8u32,
        Midi1Spec::ChannelPressure { pressure, .. } => (pressure as u32) << 8u32,
        Midi1Spec::PitchBendChange { value, .. } => (((value & 0x7F) as u32) << 8u32) | (((value
            >> 7u16) & 0x7F) as u32),
        _ => 0u32,
    }
}

/// The header bits common to MIDI 2.0 channel-voice first words.
pub open spec fn spec_cv_header(cv: Midi2ChannelVoice) -> u32 {
    0x4000_0000u32 | ((cv.spec_group() as u32) << 24u32) | ((cv.spec_opcode() as u32) << 20u32) | (
    (cv.spec_channel() as u32) << 16u32)
}

/// The two words of a MIDI 2.0 channel-voice message.
pub open spec fn spec_cv_words(cv: Midi2ChannelVoice) -> (u32, u32) {
    let h = spec_cv_header(cv);
    match cv {
        Midi2ChannelVoice::NoteOff { note, attribute_type, attribute, velocity, .. } => (
            h | ((note as u32) << 8u32) | (attribute_type as u32),
            ((velocity as u32) << 16u32) | (attribute as u32),
        ),
        Midi2ChannelVoice::NoteOn { note, attribute_type, attribute, velocity, .. } => (
            h | ((note as u32) << 8u32) | (attribute_type as u32),
            ((velocity as u32) << 16u32) | (attribute as u32),
        ),
        Midi2ChannelVoice::PolyphonicKeyPressure { note, pressure, .. } => (
            h | ((note as u32) << 8u32),
            pressure,
        ),
        Midi2ChannelVoice::ControlChange { index, value, .. } => (
            h | ((index as u32) << 8u32),
            value,
        ),
        Midi2ChannelVoice::PerNoteRcc { note, index, value, .. } => (
            h | ((note as u32) << 8u32) | (index as u32),
            value,
        ),
        Midi2ChannelVoice::PerNoteAcc { note, index, value, .. } => (
            h | ((note as u32) << 8u32) | (index as u32),
            value,
        ),
        Midi2ChannelVoice::Rpn { bank, index, value, .. } => (
            h | (((bank & 0x7F) as u32) << 8u32) | ((index & 0x7F) as u32),
            value,
        ),
        Midi2ChannelVoice::Nrpn { bank, index, value, .. } => (
            h | (((bank & 0x7F) as u32) << 8u32) | ((index & 0x7F) as u32),
            value,
        ),
        Midi2ChannelVoice::RelativeRpn { bank, index, value, .. } => (
            h | (((bank & 0x7F) as u32) << 8u32) | ((index & 0x7F) as u32),
            value,
        ),
        Midi2ChannelVoice::RelativeNrpn { bank, index, value, .. } => (
            h | (((bank & 0x7F) as u32) << 8u32) | ((index & 0x7F) as u32),
            value,
        ),
        Midi2ChannelVoice::PerNotePitchBend { note, value, .. } => (
            h | ((note as u32) << 8u32),
            value,
        ),
        Midi2ChannelVoice::ProgramChange {
            option_flags,
            program,
            bank_valid,
            bank_msb,
            bank_lsb,
            ..
        } => (
            h | ((if bank_valid { 1u32 } else { 0u32 }) << 15u32) | (option_flags as u32),
            ((program as u32) << 24u32) | (((bank_msb & 0x7F) as u32) << 8u32) | ((bank_lsb & 0x7F)
                as u32),
        ),
        Midi2ChannelVoice::ChannelPressure { pressure, .. } => (h, pressure),
        Midi2ChannelVoice::PitchBend { value, .. } => (h, value),
        Midi2ChannelVoice::PerNoteManagement { note, option_flags, .. } => (
            h | ((note as u32) << 8u32) | (option_flags as u32),
            0u32,
        ),
    }
}

/// The number of words a data message keeps: its word count clamped to
/// `2..=4`.
pub open spec fn spec_clamp_words(n: usize) -> int {
    if n < 2 {
        2
    } else if n > 4 {
        4
    } else {
        n as int
    }
}

/// The four words a message is packed into.
pub open spec fn spec_encode_ump(m: Midi2Spec) -> Seq<u32> {
    match m {
        Midi2Spec::Utility(u) => seq![
            match u {
                UtilityMessage::NoOp => 0u32,
                UtilityMessage::Clock { clock } => 0x0010_0000u32 | (clock as u32),
                UtilityMessage::Timestamp { timestamp } => 0x0020_0000u32 | (timestamp as u32),
            },
            0u32,
            0u32,
            0u32,
        ],
        Midi2Spec::SystemCommon(s) => seq![
            0x1000_0000u32 | ((s.spec_group() as u32) << 24u32) | spec_common_body(s),
            0u32,
            0u32,
            0u32,
        ],
        Midi2Spec::Midi1ChannelVoice(cv) => {
            let status: u8 = match spec_status(cv.message) {
                Some(s) => s,
                None => 0u8,
            };
            seq![
                0x2000_0000u32 | ((cv.group as u32) << 24u32) | ((status as u32) << 16u32)
                    | spec_midi1_body(cv.message),
                0u32,
                0u32,
                0u32,
            ]
        },
        Midi2Spec::SystemExclusive(s) => {
            let n: u32 = if s.data.len() < 6 {
                s.data.len() as u32
            } else {
                6u32
            };
            seq![
                0x3000_0000u32 | ((s.group as u32) << 24u32) | ((s.status as u32) << 20u32) | (n
                    << 16u32) | (sysex_field(s.data, 0) << 8u32) | sysex_field(s.data, 1),
                (sysex_field(s.data, 2) << 24u32) | (sysex_field(s.data, 3) << 16u32) | (
                sysex_field(s.data, 4) << 8u32) | sysex_field(s.data, 5),
                0u32,
                0u32,
            ]
        },
        Midi2Spec::Midi2ChannelVoice(cv) => seq![spec_cv_words(cv).0, spec_cv_words(cv).1, 0u32, 0u32],
        Midi2Spec::DataMessage { words, word_count, .. } => {
            let n = spec_clamp_words(word_count);
            Seq::new(4, |i: int| if i < n { words[i] } else { 0u32 })
        },
        Midi2Spec::FlexData(f) => spec_encode_flex(f),
    }
}

/// Parses the word-0 fields of a utility message.
pub open spec fn spec_parse_utility(w0: u32) -> Option<Midi2Spec> {
    let status = (w0 >> 20u32) & 0xF;
    let value = (w0 & 0xFFFF) as u16;
    if status == 0 {
        Some(Midi2Spec::Utility(UtilityMessage::NoOp))
    } else if status == 1 {
        Some(Midi2Spec::Utility(UtilityMessage::Clock { clock: value }))
    } else if status == 2 {
        Some(Midi2Spec::Utility(UtilityMessage::Timestamp { timestamp: value }))
    } else {
        None
    }
}

/// Parses a system common first word.
pub open spec fn spec_parse_common(w0: u32) -> Option<Midi2Spec> {
    let group = ((w0 >> 24u32) & 0xF) as u8;
    let status = (w0 >> 16u32) & 0xFF;
    let p1 = ((w0 >> 8u32) & 0x7F) as u8;
    let p2 = (w0 & 0x7F) as u8;
    let c = if status == 0xF1 {
        Some(SystemCommonMessage::TimeCodeQuarterFrame { group, quarter_frame: p1 })
    } else if status == 0xF2 {
        Some(SystemCommonMessage::SongPositionPointer { group, position: ((p2 as u16) << 7u16) | (p1 as u16) })
    } else if status == 0xF3 {
        Some(SystemCommonMessage::SongSelect { group, song: p1 })
    } else if status == 0xF6 {
        Some(SystemCommonMessage::TuneRequest { group })
    } else if status == 0xF8 {
        Some(SystemCommonMessage::TimingClock { group })
    } else if status == 0xFA {
        Some(SystemCommonMessage::Start { group })
    } else if status == 0xFB {
        Some(SystemCommonMessage::Continue { group })
    } else if status == 0xFC {
        Some(SystemCommonMessage::Stop { group })
    } else if status == 0xFE {
        Some(SystemCommonMessage::ActiveSensing { group })
    } else if status == 0xFF {
        Some(SystemCommonMessage::SystemReset { group })
    } else {
        None
    };
    match c {
        Some(c) => Some(Midi2Spec::SystemCommon(c)),
        None => None,
    }
}

/// Parses a MIDI 1.0 channel-voice word.
pub open spec fn spec_parse_midi1_cv(w0: u32) -> Option<Midi2Spec> {
    let group = ((w0 >> 24u32) & 0xF) as u8;
    let status = (w0 >> 20u32) & 0xF;
    let channel = ((w0 >> 16u32) & 0xF) as u8;
    let d1 = ((w0 >> 8u32) & 0x7F) as u8;
    let d2 = (w0 & 0x7F) as u8;
    let m = if status == 0x8 {
        Some(Midi1Spec::NoteOff { channel, note: d1, velocity: d2 })
    } else if status == 0x9 {
        Some(Midi1Spec::NoteOn { channel, note: d1, velocity: d2 })
    } else if status == 0xA {
        Some(Midi1Spec::PolyphonicKeyPressure { channel, note: d1, pressure: d2 })
    } else if status == 0xB {
        Some(Midi1Spec::ControlChange { channel, controller: d1, value: d2 })
    } else if status == 0xC {
        Some(Midi1Spec::ProgramChange { channel, program: d1 })
    } else if status == 0xD {
        Some(Midi1Spec::ChannelPressure { channel, pressure: d1 })
    } else if status == 0xE {
        Some(Midi1Spec::PitchBendChange { channel, value: ((d2 as u16) << 7u16) | (d1 as u16) })
    } else {
        None
    };
    match m {
        Some(m) => Some(Midi2Spec::Midi1ChannelVoice(Midi1CvSpec { group, message: m })),
        None => None,
    }
}

/// Data byte `i` of a sysex7 packet.
pub open spec fn spec_sysex_byte(w0: u32, w1: u32, i: int) -> u8 {
    if i == 0 {
        ((w0 >> 8u32) & 0x7F) as u8
    } else if i == 1 {
        (w0 & 0x7F) as u8
    } else if i == 2 {
        ((w1 >> 24u32) & 0x7F) as u8
    } else if i == 3 {
        ((w1 >> 16u32) & 0x7F) as u8
    } else if i == 4 {
        ((w1 >> 8u32) & 0x7F) as u8
    } else {
        (w1 & 0x7F) as u8
    }
}

/// Parses a sysex7 packet.
pub open spec fn spec_parse_sysex7(w0: u32, w1: u32) -> Option<Midi2Spec> {
    let group = ((w0 >> 24u32) & 0xF) as u8;
    let status = (w0 >> 20u32) & 0xF;
    let count = (w0 >> 16u32) & 0xF;
    if count > 6 || status > 3 {
        None
    } else {
        Some(
            Midi2Spec::SystemExclusive(
                SysExSpec {
                    status: status as u8,
                    group,
                    data: Seq::new(count as nat, |i: int| spec_sysex_byte(w0, w1, i)),
                },
            ),
        )
    }
}

/// Parses a MIDI 2.0 channel-voice packet.
pub open spec fn spec_parse_cv(w0: u32, w1: u32) -> Option<Midi2Spec> {
    let group = ((w0 >> 24u32) & 0xF) as u8;
    let opcode = (w0 >> 20u32) & 0xF;
    let channel = ((w0 >> 16u32) & 0xF) as u8;
    let ni = ((w0 >> 8u32) & 0xFF) as u8;
    let af = (w0 & 0xFF) as u8;
    let cv = if opcode == 0x0 {
        Some(Midi2ChannelVoice::PerNoteRcc { group, channel, note: ni, index: af, value: w1 })
    } else if opcode == 0x1 {
        Some(Midi2ChannelVoice::PerNoteAcc { group, channel, note: ni, index: af, value: w1 })
    } else if opcode == 0x2 {
        Some(Midi2ChannelVoice::Rpn { group, channel, bank: ni & 0x7F, index: af & 0x7F, value: w1 })
    } else if opcode == 0x3 {
        Some(Midi2ChannelVoice::Nrpn { group, channel, bank: ni & 0x7F, index: af & 0x7F, value: w1 })
    } else if opcode == 0x4 {
        Some(Midi2ChannelVoice::RelativeRpn { group, channel, bank: ni & 0x7F, index: af & 0x7F, value: w1 })
    } else if opcode == 0x5 {
        Some(Midi2ChannelVoice::RelativeNrpn { group, channel, bank: ni & 0x7F, index: af & 0x7F, value: w1 })
    } else if opcode == 0x6 {
        Some(Midi2ChannelVoice::PerNotePitchBend { group, channel, note: ni, value: w1 })
    } else if opcode == 0x8 {
        Some(Midi2ChannelVoice::NoteOff {
            group,
            channel,
            note: ni,
            attribute_type: af,
            attribute: (w1 & 0xFFFF) as u16,
            velocity: (w1 >> 16u32) as u16,
        })
    } else if opcode == 0x9 {
        Some(Midi2ChannelVoice::NoteOn {
            group,
            channel,
            note: ni,
            attribute_type: af,
            attribute: (w1 & 0xFFFF) as u16,
            velocity: (w1 >> 16u32) as u16,
        })
    } else if opcode == 0xA {
        Some(Midi2ChannelVoice::PolyphonicKeyPressure { group, channel, note: ni, pressure: w1 })
    } else if opcode == 0xB {
        Some(Midi2ChannelVoice::ControlChange { group, channel, index: ni, value: w1 })
    } else if opcode == 0xC {
        Some(Midi2ChannelVoice::ProgramChange {
            group,
            channel,
            option_flags: af,
            program: (w1 >> 24u32) as u8,
            bank_valid: (w0 >> 15u32) & 1 == 1,
            bank_msb: ((w1 >> 8u32) & 0x7F) as u8,
            bank_lsb: (w1 & 0x7F) as u8,
        })
    } else if opcode == 0xD {
        Some(Midi2ChannelVoice::ChannelPressure { group, channel, pressure: w1 })
    } else if opcode == 0xE {
        Some(Midi2ChannelVoice::PitchBend { group, channel, value: w1 })
    } else if opcode == 0xF {
        Some(Midi2ChannelVoice::PerNoteManagement { group, channel, note: ni, option_flags: af })
    } else {
        None
    };
    match cv {
        Some(cv) => Some(Midi2Spec::Midi2ChannelVoice(cv)),
        None => None,
    }
}

/// The 7-bit character byte at `shift` in a word.
pub open spec fn char_byte(w: u32, shift: u32) -> u8 {
    ((w >> shift) & 0x7F) as u8
}

/// The twelve 7-bit text bytes of the three data words of a flex-data
/// packet, in order.
pub open spec fn text_bytes(w1: u32, w2: u32, w3: u32) -> Seq<u8> {
    seq![
        char_byte(w1, 24), char_byte(w1, 16), char_byte(w1, 8), char_byte(w1, 0),
        char_byte(w2, 24), char_byte(w2, 16), char_byte(w2, 8), char_byte(w2, 0),
        char_byte(w3, 24), char_byte(w3, 16), char_byte(w3, 8), char_byte(w3, 0),
    ]
}

/// The index of the first zero byte of `b` at or after `i`, or its length
/// when there is none.
pub open spec fn first_zero(b: Seq<u8>, i: int) -> int
    decreases b.len() - i,
{
    if i < 0 || i >= b.len() {
        b.len() as int
    } else if b[i] == 0 {
        i
    } else {
        first_zero(b, i + 1)
    }
}

/// `first_zero` from `i` is `k` when the bytes from `i` up to `k` are
/// nonzero and `k` is a zero byte or the end.
pub proof fn lemma_first_zero(b: Seq<u8>, i: int, k: int)
    requires
        0 <= i <= k <= b.len(),
        forall|j: int| i <= j < k ==> b[j] != 0,
        k == b.len() || b[k] == 0,
    ensures
        first_zero(b, i) == k,
    decreases k - i,
{
    if i < k {
        lemma_first_zero(b, i + 1, k);
    }
}

/// The text held by the data words of a flex-data packet: their 7-bit
/// bytes up to the first zero.
pub open spec fn spec_decode_text(w1: u32, w2: u32, w3: u32) -> Seq<char> {
    let b = text_bytes(w1, w2, w3);
    Seq::new(first_zero(b, 0) as nat, |i: int| b[i] as char)
}

pub open spec fn spec_parse_flex(w0: u32, w1: u32, w2: u32, w3: u32) -> Midi2Spec {
    let group = ((w0 >> 24u32) & 0xF) as u8;
    let format = DataFormat::spec_from_bits(((w0 >> 22u32) & 0x3) as u8);
    let bank = ((w0 >> 20u32) & 0x3) as u8;
    let status = (w0 & 0x7F) as u8;
    let channel = ((w0 >> 8u32) & 0xF) as u8;
    Midi2Spec::FlexData(
        if status == 0 {
            FlexSpec::SetTempo { group, format, tempo: w1 }
        } else if status == 1 {
            FlexSpec::TimeSignature {
                group,
                format,
                numerator: (w1 >> 24u32) as u8,
                denominator_exponent: ((w1 >> 16u32) & 0x7F) as u8,
                thirty_seconds: ((w1 >> 8u32) & 0x7F) as u8,
            }
        } else if 4 <= status <= 0xC {
            FlexSpec::Text { group, format, bank, status, channel, text: spec_decode_text(w1, w2, w3) }
        } else {
            FlexSpec::Other { group, format, bank, status, channel, data: seq![w0, w1, w2, w3] }
        },
    )
}

/// The message four words hold, if they hold one: the words past the
/// packet's length must be zero, and the type and status fields must name
/// a known message.
pub open spec fn spec_parse_ump(words: Seq<u32>) -> Option<Midi2Spec> {
    let w0 = words[0];
    let w1 = words[1];
    let t = spec_type_of(w0);
    let n = spec_num_words(t);
    let group = ((w0 >> 24u32) & 0xF) as u8;
    if exists|i: int| n <= i < 4 && words[i] != 0 {
        None
    } else if t == 0x0 {
        spec_parse_utility(w0)
    } else if t == 0x1 {
        spec_parse_common(w0)
    } else if t == 0x2 {
        spec_parse_midi1_cv(w0)
    } else if t == 0x3 {
        spec_parse_sysex7(w0, w1)
    } else if t == 0x4 {
        spec_parse_cv(w0, w1)
    } else if t == 0x5 || t == 0xE || t == 0xF {
        Some(
            Midi2Spec::DataMessage {
                group,
                word_count: 4,
                words: words,
            },
        )
    } else if t == 0xD {
        Some(spec_parse_flex(w0, w1, words[2], words[3]))
    } else {
        None
    }
}

/// The big-endian bytes of a word.
pub open spec fn be_bytes(w: u32) -> Seq<u8> {
    seq![(w >> 24u32) as u8, (w >> 16u32) as u8, (w >> 8u32) as u8, w as u8]
}

/// The big-endian bytes of the first `n` words.
pub open spec fn spec_words_to_bytes(words: Seq<u32>, n: nat) -> Seq<u8>
    decreases n,
{
    if n == 0 {
        seq![]
    } else {
        spec_words_to_bytes(words, (n - 1) as nat) + be_bytes(words[n - 1])
    }
}

/// The word at byte offset `4 * i` of `data`, big-endian.
pub open spec fn be_word(data: Seq<u8>, i: int) -> u32 {
    ((data[4 * i] as u32) << 24u32) | ((data[4 * i + 1] as u32) << 16u32) | ((data[4 * i + 2] as u32)
        << 8u32) | (data[4 * i + 3] as u32)
}

/// The packet that big-endian bytes hold, if their length is a multiple of
/// four between 4 and 16 and matches the packet length of their type.
pub open spec fn spec_ump_from_bytes(data: Seq<u8>) -> Option<Seq<u32>> {
    if data.len() == 0 || data.len() % 4 != 0 || data.len() > 16 {
        None
    } else {
        let k = data.len() / 4;
        let words = Seq::new(4, |i: int| if i < k { be_word(data, i) } else { 0u32 });
        if k != spec_num_words(spec_type_of(words[0])) {
            None
        } else {
            Some(words)
        }
    }
}

fn be_word_at(data: &[u8], i: usize) -> (w: u32)
    requires
        i < 4,
        4 * i + 3 < data@.len(),
    ensures
        w == be_word(data@, i as int),
{
    ((data[4 * i] as u32) << 24u32) | ((data[4 * i + 1] as u32) << 16u32) | ((data[4 * i + 2] as u32)
        << 8u32) | (data[4 * i + 3] as u32)
}

impl Ump {
    /// The words of the packet.
    pub open spec fn spec_words(self) -> Seq<u32> {
        self.words@
    }

    /// Builds a packet from words (padding with zeros; words past the
    /// fourth are dropped).
    pub fn from_words(words: &[u32]) -> (u: Ump)
        ensures
            u.words@ == spec_pad_words(words@),
    {
        let mut data = [0u32; 4];
        let mut i: usize = 0;
        while i < words.len() && i < 4
            invariant
                i <= 4,
                i <= words@.len(),
                forall|k: int| 0 <= k < i ==> data@[k] == words@[k],
                forall|k: int| i <= k < 4 ==> data@[k] == 0u32,
            decreases 4 - i,
        {
            data[i] = words[i];
            i += 1;
        }
        proof {
            assert(data@ =~= spec_pad_words(words@));
        }
        Ump { words: data }
    }

    /// The message type nibble (bits 31-28 of the first word).
    pub fn message_type(&self) -> (t: u8)
        ensures
            t == spec_type_of(self.words@[0]),
            t < 16,
    {
        proof {
            let w = self.words@[0];
            assert(((w >> 28u32) as u8) < 16) by (bit_vector);
        }
        (self.words[0] >> 28u32) as u8
    }

    /// The group nibble (bits 27-24 of the first word).
    pub fn group(&self) -> (g: u8)
        ensures
            g == ((self.words@[0] >> 24u32) & 0xF) as u8,
    {
        ((self.words[0] >> 24u32) & 0xF) as u8
    }

    /// The number of words this packet occupies per its message type.
    pub fn num_words(&self) -> (n: usize)
        ensures
            n == spec_num_words(spec_type_of(self.words@[0])),
            1 <= n <= 4,
    {
        let t = self.message_type();
        if t <= 0x2 {
            1
        } else if t == 0x3 || t == 0x4 {
            2
        } else if t == 0x5 || t == 0xD || t == 0xE || t == 0xF {
            4
        } else {
            1
        }
    }

    /// Serializes the meaningful words as big-endian bytes.
    pub fn to_bytes(&self) -> (out: Vec<u8>)
        ensures
            out@ == spec_words_to_bytes(self.words@, spec_num_words(spec_type_of(self.words@[0]))),
    {
        let n = self.num_words();
        let mut out: Vec<u8> = Vec::with_capacity(n * 4);
        let mut i: usize = 0;
        while i < n
            invariant
                i <= n <= 4,
                out@ == spec_words_to_bytes(self.words@, i as nat),
            decreases n - i,
        {
            let w = self.words[i];
            out.push((w >> 24u32) as u8);
            out.push((w >> 16u32) as u8);
            out.push((w >> 8u32) as u8);
            out.push(w as u8);
            i += 1;
            proof {
                assert(out@ =~= spec_words_to_bytes(self.words@, i as nat));
            }
        }
        out
    }

    /// Parses a packet from big-endian bytes (4/8/12/16 bytes); the byte
    /// count must be the packet length of the first word's type.
    pub fn from_bytes(data: &[u8]) -> (r: Result<Ump, ControlError>)
        ensures
            r is Ok <==> spec_ump_from_bytes(data@) is Some,
            r matches Ok(u) ==> Some(u.words@) == spec_ump_from_bytes(data@),
            r matches Err(e) ==> e is InvalidData,
    {
        if data.len() == 0 || data.len() % 4 != 0 || data.len() > 16 {
            return Err(invalid_data("UMP byte length must be a multiple of 4 (4..16)"));
        }
        let k = data.len() / 4;
        let mut words = [0u32; 4];
        let mut i: usize = 0;
        while i < k
            invariant
                k == data@.len() / 4,
                data@.len() % 4 == 0,
                k <= 4,
                i <= k,
                forall|j: int| 0 <= j < i ==> words@[j] == be_word(data@, j),
                forall|j: int| i <= j < 4 ==> words@[j] == 0u32,
            decreases k - i,
        {
            words[i] = be_word_at(data, i);
            i += 1;
        }
        let ump = Ump { words };
        proof {
            let spec_words = Seq::new(
                4,
                |j: int| if j < k { be_word(data@, j) } else { 0u32 },
            );
            assert(words@ =~= spec_words);
        }
        if k != ump.num_words() {
            return Err(invalid_data("UMP byte count does not match its message type"));
        }
        Ok(ump)
    }

    /// Parses the packet into a typed MIDI 2.0 message.
    pub fn parse(&self) -> (r: Result<Midi2Message, ControlError>)
        ensures
            r is Ok <==> spec_parse_ump(self.words@) is Some,
            r matches Ok(m) ==> Some(m@) == spec_parse_ump(self.words@),
            r matches Err(e) ==> e is InvalidData,
    {
        let n = self.num_words();
        let mut i = n;
        while i < 4
            invariant
                n <= i <= 4,
                n == spec_num_words(spec_type_of(self.words@[0])),
                forall|j: int| n <= j < i ==> self.words@[j] == 0u32,
            decreases 4 - i,
        {
            if self.words[i] != 0 {
                return Err(invalid_data("trailing garbage after UMP packet"));
            }
            i += 1;
        }
        parse_words(&self.words)
    }

    /// Builds a single-packet UMP from a MIDI 2.0 message.
    ///
    /// A chunked SysEx exchange spans several packets; use
    /// [`message_to_umps`] for those.
    pub fn from_message(message: &Midi2Message) -> (u: Ump)
        ensures
            u.words@ == spec_encode_ump(message@),
    {
        let mut words = [0u32; 4];
        match message {
            Midi2Message::Utility(u) => {
                words[0] = match u {
                    UtilityMessage::NoOp => 0u32,
                    UtilityMessage::Clock { clock } => 0x0010_0000u32 | (*clock as u32),
                    UtilityMessage::Timestamp { timestamp } => 0x0020_0000u32 | (*timestamp as u32),
                };
            },
            Midi2Message::SystemCommon(s) => {
                let body: u32 = match s {
                    SystemCommonMessage::TimeCodeQuarterFrame { quarter_frame, .. } => 0x00F1_0000u32
                        | (((*quarter_frame & 0x7F) as u32) << 8u32),
                    SystemCommonMessage::SongPositionPointer { position, .. } => 0x00F2_0000u32 | (((
                    *position & 0x7F) as u32) << 8u32) | (((*position >> 7u16) & 0x7F) as u32),
                    SystemCommonMessage::SongSelect { song, .. } => 0x00F3_0000u32 | (((*song & 0x7F)
                        as u32) << 8u32),
                    SystemCommonMessage::TuneRequest { .. } => 0x00F6_0000u32,
                    SystemCommonMessage::TimingClock { .. } => 0x00F8_0000u32,
                    SystemCommonMessage::Start { .. } => 0x00FA_0000u32,
                    SystemCommonMessage::Continue { .. } => 0x00FB_0000u32,
                    SystemCommonMessage::Stop { .. } => 0x00FC_0000u32,
                    SystemCommonMessage::ActiveSensing { .. } => 0x00FE_0000u32,
                    SystemCommonMessage::SystemReset { .. } => 0x00FF_0000u32,
                };
                words[0] = 0x1000_0000u32 | ((s.group() as u32) << 24u32) | body;
            },
            Midi2Message::Midi1ChannelVoice(cv) => {
                let status: u8 = match cv.message.status() {
                    Some(s) => s,
                    None => 0u8,
                };
                let body: u32 = match &cv.message {
                    Midi1Message::NoteOff { note, velocity, .. } => ((*note as u32) << 8u32) | (
                    *velocity as u32),
                    Midi1Message::NoteOn { note, velocity, .. } => ((*note as u32) << 8u32) | (
                    *velocity as u32),
                    Midi1Message::PolyphonicKeyPressure { note, pressure, .. } => ((*note as u32)
                        << 8u32) | (*pressure as u32),
                    Midi1Message::ControlChange { controller, value, .. } => ((*controller as u32)
                        << 8u32) | (*value as u32),
                    Midi1Message::ProgramChange { program, .. } => (*program as u32) << 8u32,
                    Midi1Message::ChannelPressure { pressure, .. } => (*pressure as u32) << 8u32,
                    Midi1Message::PitchBendChange { value, .. } => (((*value & 0x7F) as u32)
                        << 8u32) | (((*value >> 7u16) & 0x7F) as u32),
                    _ => 0u32,
                };
                words[0] = 0x2000_0000u32 | ((cv.group as u32) << 24u32) | ((status as u32)
                    << 16u32) | body;
            },
            Midi2Message::SystemExclusive(s) => {
                let data = s.data();
                let n: u32 = if data.len() < 6 {
                    data.len() as u32
                } else {
                    6u32
                };
                let f0 = sysex_field_at(data, 0);
                let f1 = sysex_field_at(data, 1);
                let f2 = sysex_field_at(data, 2);
                let f3 = sysex_field_at(data, 3);
                let f4 = sysex_field_at(data, 4);
                let f5 = sysex_field_at(data, 5);
                words[0] = 0x3000_0000u32 | ((s.group() as u32) << 24u32) | ((s.status_code() as u32)
                    << 20u32) | (n << 16u32) | (f0 << 8u32) | f1;
                words[1] = (f2 << 24u32) | (f3 << 16u32) | (f4 << 8u32) | f5;
            },
            Midi2Message::Midi2ChannelVoice(cv) => {
                let h = 0x4000_0000u32 | ((cv.group() as u32) << 24u32) | ((cv.opcode() as u32)
                    << 20u32) | ((cv.channel() as u32) << 16u32);
                let (w0, w1) = cv_words(cv, h);
                words[0] = w0;
                words[1] = w1;
            },
            Midi2Message::DataMessage(d) => {
                let n: usize = if d.word_count < 2 {
                    2
                } else if d.word_count > 4 {
                    4
                } else {
                    d.word_count
                };
                let mut i: usize = 0;
                while i < n
                    invariant
                        2 <= n <= 4,
                        i <= n,
                        forall|k: int| 0 <= k < i ==> words@[k] == d.words@[k],
                        forall|k: int| i <= k < 4 ==> words@[k] == 0u32,
                    decreases n - i,
                {
                    words[i] = d.words[i];
                    i += 1;
                }
            },
            Midi2Message::FlexData(f) => {
                words = encode_flex(f);
            },
        }
        proof {
            assert(words@ =~= spec_encode_ump(message@));
        }
        Ump { words }
    }
}

fn sysex_field_at(data: &[u8], i: usize) -> (f: u32)
    ensures
        f == sysex_field(data@, i as int),
{
    if i < data.len() {
        (data[i] & 0x7F) as u32
    } else {
        0u32
    }
}

fn cv_words(cv: &Midi2ChannelVoice, h: u32) -> (r: (u32, u32))
    requires
        h == spec_cv_header(*cv),
    ensures
        r == spec_cv_words(*cv),
{
    match *cv {
        Midi2ChannelVoice::NoteOff { note, attribute_type, attribute, velocity, .. } => (
            h | ((note as u32) << 8u32) | (attribute_type as u32),
            ((velocity as u32) << 16u32) | (attribute as u32),
        ),
        Midi2ChannelVoice::NoteOn { note, attribute_type, attribute, velocity, .. } => (
            h | ((note as u32) << 8u32) | (attribute_type as u32),
            ((velocity as u32) << 16u32) | (attribute as u32),
        ),
        Midi2ChannelVoice::PolyphonicKeyPressure { note, pressure, .. } => (
            h | ((note as u32) << 8u32),
            pressure,
        ),
        Midi2ChannelVoice::ControlChange { index, value, .. } => (h | ((index as u32) << 8u32), value),
        Midi2ChannelVoice::PerNoteRcc { note, index, value, .. } => (
            h | ((note as u32) << 8u32) | (index as u32),
            value,
        ),
        Midi2ChannelVoice::PerNoteAcc { note, index, value, .. } => (
            h | ((note as u32) << 8u32) | (index as u32),
            value,
        ),
        Midi2ChannelVoice::Rpn { bank, index, value, .. } => (
            h | (((bank & 0x7F) as u32) << 8u32) | ((index & 0x7F) as u32),
            value,
        ),
        Midi2ChannelVoice::Nrpn { bank, index, value, .. } => (
            h | (((bank & 0x7F) as u32) << 8u32) | ((index & 0x7F) as u32),
            value,
        ),
        Midi2ChannelVoice::RelativeRpn { bank, index, value, .. } => (
            h | (((bank & 0x7F) as u32) << 8u32) | ((index & 0x7F) as u32),
            value,
        ),
        Midi2ChannelVoice::RelativeNrpn { bank, index, value, .. } => (
            h | (((bank & 0x7F) as u32) << 8u32) | ((index & 0x7F) as u32),
            value,
        ),
        Midi2ChannelVoice::PerNotePitchBend { note, value, .. } => (h | ((note as u32) << 8u32), value),
        Midi2ChannelVoice::ProgramChange {
            option_flags,
            program,
            bank_valid,
            bank_msb,
            bank_lsb,
            ..
        } => (
            h | ((if bank_valid { 1u32 } else { 0u32 }) << 15u32) | (option_flags as u32),
            ((program as u32) << 24u32) | (((bank_msb & 0x7F) as u32) << 8u32) | ((bank_lsb & 0x7F)
                as u32),
        ),
        Midi2ChannelVoice::ChannelPressure { pressure, .. } => (h, pressure),
        Midi2ChannelVoice::PitchBend { value, .. } => (h, value),
        Midi2ChannelVoice::PerNoteManagement { note, option_flags, .. } => (
            h | ((note as u32) << 8u32) | (option_flags as u32),
            0u32,
        ),
    }
}

fn flex_word0(group: u8, format: DataFormat, bank: u8, status: u8, channel: u8) -> (w: u32)
    ensures
        w == spec_flex_word0(group, format, bank, status, channel),
{
    (0xDu32 << 28u32) | ((group as u32) << 24u32) | ((format.to_bits() as u32) << 22u32) | (((bank
        & 0x3) as u32) << 20u32) | (((channel & 0xF) as u32) << 8u32) | ((status & 0x7F) as u32)
}

fn text_field_at(bytes: &[u8], i: usize) -> (f: u32)
    ensures
        f == text_field(bytes@, i as int),
{
    if i < bytes.len() && i < 12 {
        (bytes[i] & 0x7F) as u32
    } else {
        0u32
    }
}

fn text_word_at(bytes: &[u8], base: usize) -> (w: u32)
    requires
        base <= 8,
    ensures
        w == text_word(bytes@, base as int),
{
    (text_field_at(bytes, base) << 24u32) | (text_field_at(bytes, base + 1) << 16u32) | (
    text_field_at(bytes, base + 2) << 8u32) | text_field_at(bytes, base + 3)
}

fn encode_flex(f: &FlexDataMessage) -> (words: [u32; 4])
    ensures
        words@ == spec_encode_flex(f@),
{
    let mut words = [0u32; 4];
    match f {
        FlexDataMessage::SetTempo { group, format, ten_nanosecond_units_per_quarter_note } => {
            words[0] = flex_word0(*group, *format, 1, 0, 0);
            words[1] = *ten_nanosecond_units_per_quarter_note;
        },
        FlexDataMessage::TimeSignature {
            group,
            format,
            numerator,
            denominator_exponent,
            thirty_second_notes_per_quarter,
        } => {
            words[0] = flex_word0(*group, *format, 1, 1, 0);
            words[1] = ((*numerator as u32) << 24u32) | (((*denominator_exponent & 0x7F) as u32)
                << 16u32) | (((*thirty_second_notes_per_quarter & 0x7F) as u32) << 8u32);
        },
        FlexDataMessage::Text { group, format, bank, status, channel, text } => {
            let bytes = text.as_str().as_bytes();
            words[0] = flex_word0(*group, *format, *bank, *status, *channel);
            words[1] = text_word_at(bytes, 0);
            words[2] = text_word_at(bytes, 4);
            words[3] = text_word_at(bytes, 8);
        },
        FlexDataMessage::Other { group, format, bank, status, channel, data } => {
            words = *data;
            words[0] = flex_word0(*group, *format, *bank, *status, *channel);
        },
    }
    proof {
        assert(words@ =~= spec_encode_flex(f@));
    }
    words
}

fn parse_words(words: &[u32; 4]) -> (r: Result<Midi2Message, ControlError>)
    requires
        forall|j: int|
            spec_num_words(spec_type_of(words@[0])) <= j < 4 ==> words@[j] == 0u32,
    ensures
        r is Ok <==> spec_parse_ump(words@) is Some,
        r matches Ok(m) ==> Some(m@) == spec_parse_ump(words@),
        r matches Err(e) ==> e is InvalidData,
{
    let word0 = words[0];
    let word1 = words[1];
    let group = ((word0 >> 24u32) & 0xF) as u8;
    let t = (word0 >> 28u32) as u8;
    proof {
        assert(((word0 >> 28u32) as u8) < 16) by (bit_vector);
    }
    if t == 0x0 {
        let status = (word0 >> 20u32) & 0xF;
        let value = (word0 & 0xFFFF) as u16;
        if status == 0 {
            Ok(Midi2Message::Utility(UtilityMessage::NoOp))
        } else if status == 1 {
            Ok(Midi2Message::Utility(UtilityMessage::Clock { clock: value }))
        } else if status == 2 {
            Ok(Midi2Message::Utility(UtilityMessage::Timestamp { timestamp: value }))
        } else {
            Err(invalid_data("unknown utility status"))
        }
    } else if t == 0x1 {
        let status = (word0 >> 16u32) & 0xFF;
        let p1 = ((word0 >> 8u32) & 0x7F) as u8;
        let p2 = (word0 & 0x7F) as u8;
        let common = if status == 0xF1 {
            SystemCommonMessage::TimeCodeQuarterFrame { group, quarter_frame: p1 }
        } else if status == 0xF2 {
            SystemCommonMessage::SongPositionPointer { group, position: ((p2 as u16) << 7u16) | (p1 as u16) }
        } else if status == 0xF3 {
            SystemCommonMessage::SongSelect { group, song: p1 }
        } else if status == 0xF6 {
            SystemCommonMessage::TuneRequest { group }
        } else if status == 0xF8 {
            SystemCommonMessage::TimingClock { group }
        } else if status == 0xFA {
            SystemCommonMessage::Start { group }
        } else if status == 0xFB {
            SystemCommonMessage::Continue { group }
        } else if status == 0xFC {
            SystemCommonMessage::Stop { group }
        } else if status == 0xFE {
            SystemCommonMessage::ActiveSensing { group }
        } else if status == 0xFF {
            SystemCommonMessage::SystemReset { group }
        } else {
            return Err(invalid_data("unknown system status"));
        };
        Ok(Midi2Message::SystemCommon(common))
    } else if t == 0x2 {
        let status = (word0 >> 20u32) & 0xF;
        let channel = ((word0 >> 16u32) & 0xF) as u8;
        let d1 = ((word0 >> 8u32) & 0x7F) as u8;
        let d2 = (word0 & 0x7F) as u8;
        let message = if status == 0x8 {
            Midi1Message::NoteOff { channel, note: d1, velocity: d2 }
        } else if status == 0x9 {
            Midi1Message::NoteOn { channel, note: d1, velocity: d2 }
        } else if status == 0xA {
            Midi1Message::PolyphonicKeyPressure { channel, note: d1, pressure: d2 }
        } else if status == 0xB {
            Midi1Message::ControlChange { channel, controller: d1, value: d2 }
        } else if status == 0xC {
            Midi1Message::ProgramChange { channel, program: d1 }
        } else if status == 0xD {
            Midi1Message::ChannelPressure { channel, pressure: d1 }
        } else if status == 0xE {
            Midi1Message::PitchBendChange { channel, value: ((d2 as u16) << 7u16) | (d1 as u16) }
        } else {
            return Err(invalid_data("unknown MIDI 1.0 UMP opcode"));
        };
        Ok(Midi2Message::Midi1ChannelVoice(Midi1ChannelVoice { group, message }))
    } else if t == 0x3 {
        let status = (word0 >> 20u32) & 0xF;
        let count = ((word0 >> 16u32) & 0xF) as usize;
        if count > 6 {
            return Err(invalid_data("sysex7 byte count exceeds 6"));
        }
        if status > 3 {
            return Err(invalid_data("unknown sysex status"));
        }
        let mut data: Vec<u8> = Vec::with_capacity(count);
        let mut i: usize = 0;
        while i < count
            invariant
                count <= 6,
                i <= count,
                data@ == Seq::new(i as nat, |k: int| spec_sysex_byte(word0, word1, k)),
            decreases count - i,
        {
            let byte = if i == 0 {
                ((word0 >> 8u32) & 0x7F) as u8
            } else if i == 1 {
                (word0 & 0x7F) as u8
            } else if i == 2 {
                ((word1 >> 24u32) & 0x7F) as u8
            } else if i == 3 {
                ((word1 >> 16u32) & 0x7F) as u8
            } else if i == 4 {
                ((word1 >> 8u32) & 0x7F) as u8
            } else {
                (word1 & 0x7F) as u8
            };
            data.push(byte);
            i += 1;
            proof {
                assert(data@ =~= Seq::new(i as nat, |k: int| spec_sysex_byte(word0, word1, k)));
            }
        }
        Ok(Midi2Message::SystemExclusive(sysex_chunk(status as u8, group, data)))
    } else if t == 0x4 {
        let opcode = (word0 >> 20u32) & 0xF;
        let channel = ((word0 >> 16u32) & 0xF) as u8;
        let ni = ((word0 >> 8u32) & 0xFF) as u8;
        let af = (word0 & 0xFF) as u8;
        let cv = if opcode == 0x0 {
            Midi2ChannelVoice::PerNoteRcc { group, channel, note: ni, index: af, value: word1 }
        } else if opcode == 0x1 {
            Midi2ChannelVoice::PerNoteAcc { group, channel, note: ni, index: af, value: word1 }
        } else if opcode == 0x2 {
            Midi2ChannelVoice::Rpn { group, channel, bank: ni & 0x7F, index: af & 0x7F, value: word1 }
        } else if opcode == 0x3 {
            Midi2ChannelVoice::Nrpn { group, channel, bank: ni & 0x7F, index: af & 0x7F, value: word1 }
        } else if opcode == 0x4 {
            Midi2ChannelVoice::RelativeRpn { group, channel, bank: ni & 0x7F, index: af & 0x7F, value: word1 }
        } else if opcode == 0x5 {
            Midi2ChannelVoice::RelativeNrpn { group, channel, bank: ni & 0x7F, index: af & 0x7F, value: word1 }
        } else if opcode == 0x6 {
            Midi2ChannelVoice::PerNotePitchBend { group, channel, note: ni, value: word1 }
        } else if opcode == 0x8 {
            Midi2ChannelVoice::NoteOff {
                group,
                channel,
                note: ni,
                attribute_type: af,
                attribute: (word1 & 0xFFFF) as u16,
                velocity: (word1 >> 16u32) as u16,
            }
        } else if opcode == 0x9 {
            Midi2ChannelVoice::NoteOn {
                group,
                channel,
                note: ni,
                attribute_type: af,
                attribute: (word1 & 0xFFFF) as u16,
                velocity: (word1 >> 16u32) as u16,
            }
        } else if opcode == 0xA {
            Midi2ChannelVoice::PolyphonicKeyPressure { group, channel, note: ni, pressure: word1 }
        } else if opcode == 0xB {
            Midi2ChannelVoice::ControlChange { group, channel, index: ni, value: word1 }
        } else if opcode == 0xC {
            Midi2ChannelVoice::ProgramChange {
                group,
                channel,
                option_flags: af,
                program: (word1 >> 24u32) as u8,
                bank_valid: (word0 >> 15u32) & 1 == 1,
                bank_msb: ((word1 >> 8u32) & 0x7F) as u8,
                bank_lsb: (word1 & 0x7F) as u8,
            }
        } else if opcode == 0xD {
            Midi2ChannelVoice::ChannelPressure { group, channel, pressure: word1 }
        } else if opcode == 0xE {
            Midi2ChannelVoice::PitchBend { group, channel, value: word1 }
        } else if opcode == 0xF {
            Midi2ChannelVoice::PerNoteManagement { group, channel, note: ni, option_flags: af }
        } else {
            return Err(invalid_data("reserved MIDI 2.0 opcode"));
        };
        Ok(Midi2Message::Midi2ChannelVoice(cv))
    } else if t == 0x5 || t == 0xE || t == 0xF {
        let word_count: usize = 4;
        proof {
            assert(words@ =~= seq![words@[0], words@[1], words@[2], words@[3]]);
        }
        Ok(Midi2Message::DataMessage(DataMessage { group, word_count, words: *words }))
    } else if t == 0xD {
        let format = DataFormat::from_bits(((word0 >> 22u32) & 0x3) as u8);
        let bank = ((word0 >> 20u32) & 0x3) as u8;
        let status = (word0 & 0x7F) as u8;
        let channel = ((word0 >> 8u32) & 0xF) as u8;
        let flex = if status == 0 {
            FlexDataMessage::SetTempo { group, format, ten_nanosecond_units_per_quarter_note: word1 }
        } else if status == 1 {
            FlexDataMessage::TimeSignature {
                group,
                format,
                numerator: (word1 >> 24u32) as u8,
                denominator_exponent: ((word1 >> 16u32) & 0x7F) as u8,
                thirty_second_notes_per_quarter: ((word1 >> 8u32) & 0x7F) as u8,
            }
        } else if 4 <= status && status <= 0xC {
            FlexDataMessage::Text { group, format, bank, status, channel, text: decode_text(word1, words[2], words[3]) }
        } else {
            let data = [word0, word1, words[2], words[3]];
            proof {
                assert(data@ =~= seq![word0, word1, words@[2], words@[3]]);
            }
            FlexDataMessage::Other { group, format, bank, status, channel, data }
        };
        Ok(Midi2Message::FlexData(flex))
    } else {
        Err(invalid_data("unknown UMP message type"))
    }
}

fn decode_text(w1: u32, w2: u32, w3: u32) -> (text: String)
    ensures
        text@ == spec_decode_text(w1, w2, w3),
{
    let words: [u32; 3] = [w1, w2, w3];
    let ghost b = text_bytes(w1, w2, w3);
    let mut text = String::new();
    let mut i: usize = 0;
    let mut done = false;
    while i < 12 && !done
        invariant
            i <= 12,
            words@ == seq![w1, w2, w3],
            b == text_bytes(w1, w2, w3),
            forall|j: int| 0 <= j < i ==> b[j] != 0,
            done ==> i < 12 && b[i as int] == 0,
            text@ == Seq::new(i as nat, |j: int| b[j] as char),
        decreases 12 - i + (if done { 0int } else { 1int }),
    {
        let shift: u32 = 24 - 8 * ((i % 4) as u32);
        let byte = ((words[i / 4] >> shift) & 0x7F) as u8;
        proof {
            assert(byte == b[i as int]);
        }
        if byte == 0 {
            done = true;
        } else {
            push_char(&mut text, byte as char);
            i += 1;
            proof {
                assert(text@ =~= Seq::new(i as nat, |j: int| b[j] as char));
            }
        }
    }
    proof {
        lemma_first_zero(b, 0, i as int);
        assert(text@ =~= spec_decode_text(w1, w2, w3));
    }
    text
}

/// The bytes of `s` before its first `F7`.
pub open spec fn until_f7(s: Seq<u8>) -> Seq<u8>
    decreases s.len(),
{
    if s.len() == 0 {
        s
    } else if s[0] == 0xF7 {
        Seq::<u8>::empty()
    } else {
        seq![s[0]] + until_f7(s.drop_first())
    }
}

/// The payload of SysEx bytes: what follows the leading byte, up to the
/// first `F7`.
pub open spec fn sysex_payload(bytes: Seq<u8>) -> Seq<u8> {
    if bytes.len() == 0 {
        Seq::<u8>::empty()
    } else {
        until_f7(bytes.drop_first())
    }
}

/// The number of six-byte chunks `len` bytes split into.
pub open spec fn chunk_count(len: nat) -> nat {
    (len + 5) / 6
}

/// Chunk `j` (six bytes, the last one possibly shorter) of `data`.
pub open spec fn chunk_of(data: Seq<u8>, j: int) -> Seq<u8> {
    let end = if 6 * j + 6 <= data.len() {
        6 * j + 6
    } else {
        data.len() as int
    };
    data.subrange(6 * j, end)
}

/// The status of chunk `j` of a multi-packet stream of `count` chunks.
pub open spec fn chunk_status(j: int, count: nat) -> u8 {
    if j == 0 {
        1
    } else if j == count - 1 {
        3
    } else {
        2
    }
}

/// The sysex7 chunk messages carrying `data`: one message with `status`
/// when six bytes or fewer, else Start, Continue..., End chunks of six
/// bytes.
pub open spec fn spec_sysex_chunks(status: u8, group: u8, data: Seq<u8>) -> Seq<SysExSpec> {
    if data.len() <= 6 {
        seq![SysExSpec { status, group, data }]
    } else {
        Seq::new(
            chunk_count(data.len()),
            |j: int|
                SysExSpec {
                    status: chunk_status(j, chunk_count(data.len())),
                    group,
                    data: chunk_of(data, j),
                },
        )
    }
}

/// The packets of a sysex7 chunk sequence.
pub open spec fn spec_chunks_to_umps(chunks: Seq<SysExSpec>) -> Seq<Seq<u32>> {
    Seq::new(chunks.len(), |j: int| spec_encode_ump(Midi2Spec::SystemExclusive(chunks[j])))
}

/// The packet sequence of a message: sysex is chunked into six-byte
/// packets, anything else is a single packet.
pub open spec fn spec_message_to_umps(m: Midi2Spec) -> Seq<Seq<u32>> {
    match m {
        Midi2Spec::SystemExclusive(s) => spec_chunks_to_umps(spec_sysex_chunks(s.status, s.group, s.data)),
        _ => seq![spec_encode_ump(m)],
    }
}

/// Copies `data[start..end]` into a new vector.
fn copy_range(data: &[u8], start: usize, end: usize) -> (out: Vec<u8>)
    requires
        start <= end <= data@.len(),
    ensures
        out@ == data@.subrange(start as int, end as int),
{
    let mut out: Vec<u8> = Vec::with_capacity(end - start);
    let mut i = start;
    while i < end
        invariant
            start <= i <= end <= data@.len(),
            out@ == data@.subrange(start as int, i as int),
        decreases end - i,
    {
        out.push(data[i]);
        i += 1;
        proof {
            assert(out@ =~= data@.subrange(start as int, i as int));
        }
    }
    out
}

/// Splits `data` into sysex7 chunk messages per [`spec_sysex_chunks`].
fn sysex_chunks(status: u8, group: u8, data: &[u8]) -> (out: Vec<SysExMessage>)
    requires
        status < 4,
    ensures
        out@.len() == spec_sysex_chunks(status, group, data@).len(),
        forall|j: int| 0 <= j < out@.len() ==> (#[trigger] out@[j])@ == spec_sysex_chunks(status, group, data@)[j],
{
    let mut out: Vec<SysExMessage> = Vec::new();
    if data.len() <= 6 {
        out.push(sysex_chunk(status, group, copy_range(data, 0, data.len())));
        proof {
            assert(data@.subrange(0, data@.len() as int) =~= data@);
        }
        return out;
    }
    let count = data.len() / 6 + if data.len() % 6 != 0 {
        1
    } else {
        0
    };
    proof {
        assert(count == chunk_count(data@.len()));
    }
    let mut j: usize = 0;
    let mut start: usize = 0;
    while j < count
        invariant
            data@.len() > 6,
            count == chunk_count(data@.len()),
            j < count ==> start == 6 * j,
            j <= count,
            out@.len() == j,
            forall|k: int| 0 <= k < j ==> (#[trigger] out@[k])@ == spec_sysex_chunks(status, group, data@)[k],
        decreases count - j,
    {
        assert(start < data@.len()) by (nonlinear_arith)
            requires start == 6 * j, j < count, count == (data@.len() + 5) / 6;
        let end = if data.len() - start >= 6 {
            start + 6
        } else {
            data.len()
        };
        let st: u8 = if j == 0 {
            1
        } else if j == count - 1 {
            3
        } else {
            2
        };
        out.push(sysex_chunk(st, group, copy_range(data, start, end)));
        j += 1;
        if j < count {
            assert(start + 6 < data@.len()) by (nonlinear_arith)
                requires start + 6 == 6 * j, j < count, count == (data@.len() + 5) / 6;
            start = start + 6;
        }
    }
    out
}

/// Converts a MIDI 2.0 message into its UMP packet sequence.
pub fn message_to_umps(message: &Midi2Message) -> (out: Vec<Ump>)
    ensures
        out@.len() == spec_message_to_umps(message@).len(),
        forall|j: int| 0 <= j < out@.len() ==> (#[trigger] out@[j]).words@ == spec_message_to_umps(message@)[j],
{
    match message {
        Midi2Message::SystemExclusive(s) => chunk_sysex7(s),
        _ => {
            let mut out: Vec<Ump> = Vec::new();
            out.push(Ump::from_message(message));
            out
        },
    }
}

fn chunk_sysex7(s: &SysExMessage) -> (out: Vec<Ump>)
    ensures
        out@.len() == spec_chunks_to_umps(spec_sysex_chunks(s@.status, s@.group, s@.data)).len(),
        forall|j: int| 0 <= j < out@.len() ==> (#[trigger] out@[j]).words@ == spec_chunks_to_umps(
            spec_sysex_chunks(s@.status, s@.group, s@.data),
        )[j],
{
    let chunks = sysex_chunks(s.status_code(), s.group(), s.data());
    let ghost spec_chunks = spec_sysex_chunks(s@.status, s@.group, s@.data);
    let mut out: Vec<Ump> = Vec::new();
    let mut j: usize = 0;
    while j < chunks.len()
        invariant
            chunks@.len() == spec_chunks.len(),
            forall|k: int| 0 <= k < chunks@.len() ==> (#[trigger] chunks@[k])@ == spec_chunks[k],
            j <= chunks@.len(),
            out@.len() == j,
            forall|k: int| 0 <= k < j ==> (#[trigger] out@[k]).words@ == spec_chunks_to_umps(spec_chunks)[k],
        decreases chunks@.len() - j,
    {
        let chunk = sysex_copy(&chunks[j]);
        let m = Midi2Message::SystemExclusive(chunk);
        out.push(Ump::from_message(&m));
        j += 1;
    }
    out
}

/// A copy of a sysex chunk message with the same value.
pub fn sysex_copy(s: &SysExMessage) -> (out: SysExMessage)
    ensures
        out@ == s@,
{
    let data = copy_range(s.data(), 0, s.data().len());
    proof {
        assert(s@.data.subrange(0, s@.data.len() as int) =~= s@.data);
    }
    sysex_chunk(s.status_code(), s.group(), data)
}

/// The MIDI 2.0 form of a MIDI 1.0 message: channel voice gains
/// full-scale values (a velocity-0 note on becomes a note off), system
/// messages move to the UMP system type, and SysEx is chunked.
pub open spec fn spec_midi1_to_midi2(m: Midi1Spec, group: u8) -> Seq<Midi2Spec> {
    match m {
        Midi1Spec::NoteOff { channel, note, velocity } => seq![Midi2Spec::Midi2ChannelVoice(Midi2ChannelVoice::NoteOff {
            group, channel, note, attribute_type: 0, attribute: 0,
            velocity: crate::midi1::spec_scale_7_to_16(velocity as int) as u16,
        })],
        Midi1Spec::NoteOn { channel, note, velocity } => if velocity == 0 {
            seq![Midi2Spec::Midi2ChannelVoice(Midi2ChannelVoice::NoteOff {
                group, channel, note, attribute_type: 0, attribute: 0, velocity: 0,
            })]
        } else {
            seq![Midi2Spec::Midi2ChannelVoice(Midi2ChannelVoice::NoteOn {
                group, channel, note, attribute_type: 0, attribute: 0,
                velocity: crate::midi1::spec_scale_7_to_16(velocity as int) as u16,
            })]
        },
        Midi1Spec::PolyphonicKeyPressure { channel, note, pressure } => seq![Midi2Spec::Midi2ChannelVoice(Midi2ChannelVoice::PolyphonicKeyPressure {
            group, channel, note, pressure: crate::midi1::spec_scale_7_to_32(pressure as int) as u32,
        })],
        Midi1Spec::ControlChange { channel, controller, value } => seq![Midi2Spec::Midi2ChannelVoice(Midi2ChannelVoice::ControlChange {
            group, channel, index: controller, value: crate::midi1::spec_scale_7_to_32(value as int) as u32,
        })],
        Midi1Spec::ProgramChange { channel, program } => seq![Midi2Spec::Midi2ChannelVoice(Midi2ChannelVoice::ProgramChange {
            group, channel, option_flags: 0, program, bank_valid: false, bank_msb: 0, bank_lsb: 0,
        })],
        Midi1Spec::ChannelPressure { channel, pressure } => seq![Midi2Spec::Midi2ChannelVoice(Midi2ChannelVoice::ChannelPressure {
            group, channel, pressure: crate::midi1::spec_scale_7_to_32(pressure as int) as u32,
        })],
        Midi1Spec::PitchBendChange { channel, value } => seq![Midi2Spec::Midi2ChannelVoice(Midi2ChannelVoice::PitchBend {
            group, channel, value: crate::midi1::spec_scale_14_to_32((value % 0x4000) as int) as u32,
        })],
        Midi1Spec::SystemExclusive(bytes) => {
            let chunks = spec_sysex_chunks(0, group, sysex_payload(bytes));
            Seq::new(chunks.len(), |j: int| Midi2Spec::SystemExclusive(chunks[j]))
        },
        Midi1Spec::TimeCodeQuarterFrame(q) => seq![Midi2Spec::SystemCommon(SystemCommonMessage::TimeCodeQuarterFrame { group, quarter_frame: q })],
        Midi1Spec::SongPositionPointer(p) => seq![Midi2Spec::SystemCommon(SystemCommonMessage::SongPositionPointer { group, position: p })],
        Midi1Spec::SongSelect(s) => seq![Midi2Spec::SystemCommon(SystemCommonMessage::SongSelect { group, song: s })],
        Midi1Spec::TuneRequest => seq![Midi2Spec::SystemCommon(SystemCommonMessage::TuneRequest { group })],
        Midi1Spec::TimingClock => seq![Midi2Spec::SystemCommon(SystemCommonMessage::TimingClock { group })],
        Midi1Spec::Start => seq![Midi2Spec::SystemCommon(SystemCommonMessage::Start { group })],
        Midi1Spec::Continue => seq![Midi2Spec::SystemCommon(SystemCommonMessage::Continue { group })],
        Midi1Spec::Stop => seq![Midi2Spec::SystemCommon(SystemCommonMessage::Stop { group })],
        Midi1Spec::ActiveSensing => seq![Midi2Spec::SystemCommon(SystemCommonMessage::ActiveSensing { group })],
        Midi1Spec::SystemReset => seq![Midi2Spec::SystemCommon(SystemCommonMessage::SystemReset { group })],
    }
}

fn one_message(m: Midi2Message) -> (out: Vec<Midi2Message>)
    ensures
        out@.len() == 1,
        out@[0] == m,
{
    let mut out: Vec<Midi2Message> = Vec::new();
    out.push(m);
    out
}

fn cv_message(cv: Midi2ChannelVoice) -> (out: Vec<Midi2Message>)
    ensures
        out@.len() == 1,
        out@[0]@ == Midi2Spec::Midi2ChannelVoice(cv),
{
    one_message(Midi2Message::Midi2ChannelVoice(cv))
}

fn common_message(c: SystemCommonMessage) -> (out: Vec<Midi2Message>)
    ensures
        out@.len() == 1,
        out@[0]@ == Midi2Spec::SystemCommon(c),
{
    one_message(Midi2Message::SystemCommon(c))
}

/// Translates a MIDI 1.0 message into its MIDI 2.0 (UMP) equivalent.
///
/// Channel voice messages gain full-scale high-resolution values;
/// system messages map to the UMP System type; SysEx is chunked into
/// sysex7 messages.
pub fn midi1_to_midi2(message: &Midi1Message, group: u8) -> (out: Vec<Midi2Message>)
    ensures
        out@.len() == spec_midi1_to_midi2(message@, group).len(),
        forall|j: int| 0 <= j < out@.len() ==> (#[trigger] out@[j])@ == spec_midi1_to_midi2(message@, group)[j],
{
    match message {
        Midi1Message::NoteOff { channel, note, velocity } => cv_message(Midi2ChannelVoice::NoteOff {
            group, channel: *channel, note: *note, attribute_type: 0, attribute: 0,
            velocity: crate::midi1::scale_7_to_16(*velocity),
        }),
        Midi1Message::NoteOn { channel, note, velocity } => {
            if *velocity == 0 {
                cv_message(Midi2ChannelVoice::NoteOff {
                    group, channel: *channel, note: *note, attribute_type: 0, attribute: 0, velocity: 0,
                })
            } else {
                cv_message(Midi2ChannelVoice::NoteOn {
                    group, channel: *channel, note: *note, attribute_type: 0, attribute: 0,
                    velocity: crate::midi1::scale_7_to_16(*velocity),
                })
            }
        },
        Midi1Message::PolyphonicKeyPressure { channel, note, pressure } => cv_message(Midi2ChannelVoice::PolyphonicKeyPressure {
            group, channel: *channel, note: *note, pressure: crate::midi1::scale_7_to_32(*pressure),
        }),
        Midi1Message::ControlChange { channel, controller, value } => cv_message(Midi2ChannelVoice::ControlChange {
            group, channel: *channel, index: *controller, value: crate::midi1::scale_7_to_32(*value),
        }),
        Midi1Message::ProgramChange { channel, program } => cv_message(Midi2ChannelVoice::ProgramChange {
            group, channel: *channel, option_flags: 0, program: *program, bank_valid: false, bank_msb: 0, bank_lsb: 0,
        }),
        Midi1Message::ChannelPressure { channel, pressure } => cv_message(Midi2ChannelVoice::ChannelPressure {
            group, channel: *channel, pressure: crate::midi1::scale_7_to_32(*pressure),
        }),
        Midi1Message::PitchBendChange { channel, value } => cv_message(Midi2ChannelVoice::PitchBend {
            group, channel: *channel, value: crate::midi1::scale_14_to_32(*value),
        }),
        Midi1Message::SystemExclusive(bytes) => {
            // Strip F0 and everything from the first F7, then chunk.
            let ghost rest = if bytes@.len() == 0 {
                Seq::<u8>::empty()
            } else {
                bytes@.drop_first()
            };
            let mut payload: Vec<u8> = Vec::new();
            let mut i: usize = 1;
            if bytes.len() > 0 {
                while i < bytes.len() && bytes[i] != 0xF7
                    invariant
                        bytes@.len() > 0,
                        1 <= i <= bytes@.len(),
                        rest == bytes@.drop_first(),
                        payload@ == rest.take(i - 1),
                        forall|k: int| 0 <= k < i - 1 ==> rest[k] != 0xF7,
                    decreases bytes@.len() - i,
                {
                    payload.push(bytes[i]);
                    i += 1;
                    proof {
                        assert(payload@ =~= rest.take(i - 1));
                    }
                }
                proof {
                    lemma_until_f7_prefix(rest, i - 1);
                }
            } else {
                proof {
                    assert(until_f7(rest) =~= Seq::<u8>::empty());
                    assert(payload@ =~= until_f7(rest));
                }
            }
            let chunks = sysex_chunks(0, group, payload.as_slice());
            let mut out: Vec<Midi2Message> = Vec::new();
            let mut j: usize = 0;
            while j < chunks.len()
                invariant
                    chunks@.len() == spec_sysex_chunks(0, group, sysex_payload(bytes@)).len(),
                    forall|k: int| 0 <= k < chunks@.len() ==> (#[trigger] chunks@[k])@ == spec_sysex_chunks(0, group, sysex_payload(bytes@))[k],
                    j <= chunks@.len(),
                    out@.len() == j,
                    forall|k: int| 0 <= k < j ==> (#[trigger] out@[k])@ == Midi2Spec::SystemExclusive(chunks@[k]@),
                decreases chunks@.len() - j,
            {
                out.push(Midi2Message::SystemExclusive(sysex_copy(&chunks[j])));
                j += 1;
            }
            out
        },
        Midi1Message::TimeCodeQuarterFrame(q) => common_message(SystemCommonMessage::TimeCodeQuarterFrame { group, quarter_frame: *q }),
        Midi1Message::SongPositionPointer(p) => common_message(SystemCommonMessage::SongPositionPointer { group, position: *p }),
        Midi1Message::SongSelect(s) => common_message(SystemCommonMessage::SongSelect { group, song: *s }),
        Midi1Message::TuneRequest => common_message(SystemCommonMessage::TuneRequest { group }),
        Midi1Message::TimingClock => common_message(SystemCommonMessage::TimingClock { group }),
        Midi1Message::Start => common_message(SystemCommonMessage::Start { group }),
        Midi1Message::Continue => common_message(SystemCommonMessage::Continue { group }),
        Midi1Message::Stop => common_message(SystemCommonMessage::Stop { group }),
        Midi1Message::ActiveSensing => common_message(SystemCommonMessage::ActiveSensing { group }),
        Midi1Message::SystemReset => common_message(SystemCommonMessage::SystemReset { group }),
    }
}

/// If no byte before `i` is `F7` and `s[i]` is `F7` (or `i` is the end),
/// the bytes before the first `F7` are `s[..i]`.
pub proof fn lemma_until_f7_prefix(s: Seq<u8>, i: int)
    requires
        0 <= i <= s.len(),
        forall|k: int| 0 <= k < i ==> s[k] != 0xF7,
        i == s.len() || s[i] == 0xF7,
    ensures
        until_f7(s) == s.take(i),
    decreases s.len(),
{
    if s.len() == 0 {
        assert(s.take(i) =~= s);
    } else if i == 0 {
        assert(s.take(0) =~= Seq::<u8>::empty());
    } else {
        lemma_until_f7_prefix(s.drop_first(), i - 1);
        assert(s.take(i) =~= seq![s[0]] + s.drop_first().take(i - 1));
    }
}

/// The MIDI 1.0 form of a MIDI 2.0 message, downscaled; empty for
/// messages without one (per-note controllers, lone SysEx continuations,
/// utility, data and flex messages).
pub open spec fn spec_midi2_to_midi1(m: Midi2Spec) -> Seq<Midi1Spec> {
    match m {
        Midi2Spec::Midi1ChannelVoice(cv) => seq![cv.message],
        Midi2Spec::Midi2ChannelVoice(cv) => match cv {
            Midi2ChannelVoice::NoteOff { channel, note, velocity, .. } => seq![Midi1Spec::NoteOff {
                channel, note, velocity: crate::midi1::spec_scale_16_to_7(velocity as int) as u8,
            }],
            Midi2ChannelVoice::NoteOn { channel, note, velocity, .. } => seq![Midi1Spec::NoteOn {
                channel, note, velocity: crate::midi1::spec_scale_16_to_7(velocity as int) as u8,
            }],
            Midi2ChannelVoice::PolyphonicKeyPressure { channel, note, pressure, .. } => seq![Midi1Spec::PolyphonicKeyPressure {
                channel, note, pressure: crate::midi1::spec_scale_32_to_7(pressure as int) as u8,
            }],
            Midi2ChannelVoice::ControlChange { channel, index, value, .. } => seq![Midi1Spec::ControlChange {
                channel, controller: index, value: crate::midi1::spec_scale_32_to_7(value as int) as u8,
            }],
            Midi2ChannelVoice::ProgramChange { channel, program, .. } => seq![Midi1Spec::ProgramChange { channel, program }],
            Midi2ChannelVoice::ChannelPressure { channel, pressure, .. } => seq![Midi1Spec::ChannelPressure {
                channel, pressure: crate::midi1::spec_scale_32_to_7(pressure as int) as u8,
            }],
            Midi2ChannelVoice::PitchBend { channel, value, .. } => seq![Midi1Spec::PitchBendChange {
                channel, value: ((value as int) / 0x4_0000) as u16,
            }],
            _ => Seq::<Midi1Spec>::empty(),
        },
        Midi2Spec::SystemCommon(s) => seq![match s {
            SystemCommonMessage::TimeCodeQuarterFrame { quarter_frame, .. } => Midi1Spec::TimeCodeQuarterFrame(quarter_frame),
            SystemCommonMessage::SongPositionPointer { position, .. } => Midi1Spec::SongPositionPointer(position),
            SystemCommonMessage::SongSelect { song, .. } => Midi1Spec::SongSelect(song),
            SystemCommonMessage::TuneRequest { .. } => Midi1Spec::TuneRequest,
            SystemCommonMessage::TimingClock { .. } => Midi1Spec::TimingClock,
            SystemCommonMessage::Start { .. } => Midi1Spec::Start,
            SystemCommonMessage::Continue { .. } => Midi1Spec::Continue,
            SystemCommonMessage::Stop { .. } => Midi1Spec::Stop,
            SystemCommonMessage::ActiveSensing { .. } => Midi1Spec::ActiveSensing,
            SystemCommonMessage::SystemReset { .. } => Midi1Spec::SystemReset,
        }],
        Midi2Spec::SystemExclusive(s) => if s.status <= 1 {
            seq![Midi1Spec::SystemExclusive(seq![0xF0u8] + s.data + seq![0xF7u8])]
        } else {
            Seq::<Midi1Spec>::empty()
        },
        _ => Seq::<Midi1Spec>::empty(),
    }
}

fn one_midi1(m: Midi1Message) -> (out: Vec<Midi1Message>)
    ensures
        out@.len() == 1,
        out@[0] == m,
{
    let mut out: Vec<Midi1Message> = Vec::new();
    out.push(m);
    out
}

/// Translates a MIDI 2.0 message into its MIDI 1.0 equivalent
/// (downscaled per the MIDI 2.0 recommended scaling). Returns nothing for
/// messages with no MIDI 1.0 form (e.g. Per-Note Management).
pub fn midi2_to_midi1(message: &Midi2Message) -> (out: Vec<Midi1Message>)
    ensures
        out@.len() == spec_midi2_to_midi1(message@).len(),
        forall|j: int| 0 <= j < out@.len() ==> (#[trigger] out@[j])@ == spec_midi2_to_midi1(message@)[j],
{
    match message {
        Midi2Message::Midi1ChannelVoice(cv) => one_midi1(cv.message.duplicate()),
        Midi2Message::Midi2ChannelVoice(cv) => match *cv {
            Midi2ChannelVoice::NoteOff { channel, note, velocity, .. } => one_midi1(Midi1Message::NoteOff {
                channel, note, velocity: crate::midi1::scale_16_to_7(velocity),
            }),
            Midi2ChannelVoice::NoteOn { channel, note, velocity, .. } => one_midi1(Midi1Message::NoteOn {
                channel, note, velocity: crate::midi1::scale_16_to_7(velocity),
            }),
            Midi2ChannelVoice::PolyphonicKeyPressure { channel, note, pressure, .. } => one_midi1(Midi1Message::PolyphonicKeyPressure {
                channel, note, pressure: crate::midi1::scale_32_to_7(pressure),
            }),
            Midi2ChannelVoice::ControlChange { channel, index, value, .. } => one_midi1(Midi1Message::ControlChange {
                channel, controller: index, value: crate::midi1::scale_32_to_7(value),
            }),
            Midi2ChannelVoice::ProgramChange { channel, program, .. } => one_midi1(Midi1Message::ProgramChange { channel, program }),
            Midi2ChannelVoice::ChannelPressure { channel, pressure, .. } => one_midi1(Midi1Message::ChannelPressure {
                channel, pressure: crate::midi1::scale_32_to_7(pressure),
            }),
            Midi2ChannelVoice::PitchBend { channel, value, .. } => one_midi1(Midi1Message::PitchBendChange {
                channel, value: crate::midi1::scale_32_to_14(value),
            }),
            _ => Vec::new(),
        },
        Midi2Message::SystemCommon(s) => one_midi1(match *s {
            SystemCommonMessage::TimeCodeQuarterFrame { quarter_frame, .. } => Midi1Message::TimeCodeQuarterFrame(quarter_frame),
            SystemCommonMessage::SongPositionPointer { position, .. } => Midi1Message::SongPositionPointer(position),
            SystemCommonMessage::SongSelect { song, .. } => Midi1Message::SongSelect(song),
            SystemCommonMessage::TuneRequest { .. } => Midi1Message::TuneRequest,
            SystemCommonMessage::TimingClock { .. } => Midi1Message::TimingClock,
            SystemCommonMessage::Start { .. } => Midi1Message::Start,
            SystemCommonMessage::Continue { .. } => Midi1Message::Continue,
            SystemCommonMessage::Stop { .. } => Midi1Message::Stop,
            SystemCommonMessage::ActiveSensing { .. } => Midi1Message::ActiveSensing,
            SystemCommonMessage::SystemReset { .. } => Midi1Message::SystemReset,
        }),
        Midi2Message::SystemExclusive(s) => {
            if s.status_code() <= 1 {
                let data = s.data();
                let mut bytes: Vec<u8> = Vec::new();
                bytes.push(0xF0);
                let mut i: usize = 0;
                while i < data.len()
                    invariant
                        i <= data@.len(),
                        bytes@ == seq![0xF0u8] + data@.take(i as int),
                    decreases data@.len() - i,
                {
                    bytes.push(data[i]);
                    i += 1;
                    proof {
                        assert(bytes@ =~= seq![0xF0u8] + data@.take(i as int));
                    }
                }
                bytes.push(0xF7);
                proof {
                    assert(data@.take(data@.len() as int) =~= data@);
                    assert(bytes@ =~= seq![0xF0u8] + data@ + seq![0xF7u8]);
                }
                one_midi1(Midi1Message::SystemExclusive(bytes))
            } else {
                Vec::new()
            }
        },
        _ => Vec::new(),
    }
}


/// Accumulates chunked sysex7 packets back into whole SysEx messages.
///
/// Streams are capped: a peer that never terminates its chunks is cut off
/// at [`SysexReassembler::MAX_CHUNKS`] chunks or
/// [`SysexReassembler::MAX_BYTES`] bytes, so memory stays bounded under
/// hostile input.
#[derive(Debug)]
pub struct SysexReassembler {
    /// UMP group (0-15) of the stream in flight.
    group: u8,
    chunks: Vec<Vec<u8>>,
    /// Total bytes held in `chunks`.
    total: usize,
}

/// The total length of a chunk list.
pub open spec fn chunks_len(cs: Seq<Seq<u8>>) -> nat {
    cs.flatten().len()
}

/// The reassembler state after feeding a chunk, and the result of the
/// feed: `Err(())` for a rejected chunk, `Ok(Some(bytes))` for a finished
/// payload, `Ok(None)` when more chunks are needed.
pub open spec fn spec_feed(group: u8, cs: Seq<Seq<u8>>, m: SysExSpec) -> (u8, Seq<Seq<u8>>, Result<Option<Seq<u8>>, ()>) {
    let over = cs.len() >= 1024 || chunks_len(cs) + m.data.len() > 1024 * 1024;
    if m.status == 0 {
        (group, cs, Ok(Some(m.data)))
    } else if m.status == 1 {
        (m.group, seq![m.data], Ok(None))
    } else if m.status == 2 {
        if cs.len() == 0 {
            (group, cs, Err(()))
        } else if over {
            (group, Seq::<Seq<u8>>::empty(), Err(()))
        } else {
            (group, cs.push(m.data), Ok(None))
        }
    } else {
        if cs.len() == 0 {
            (group, cs, Err(()))
        } else if m.group != group {
            (group, cs, Err(()))
        } else if over {
            (group, Seq::<Seq<u8>>::empty(), Err(()))
        } else {
            (group, Seq::<Seq<u8>>::empty(), Ok(Some(cs.push(m.data).flatten())))
        }
    }
}

impl Default for SysexReassembler {
    fn default() -> (r: SysexReassembler)
        ensures
            r.wf(),
            r.spec_group() == 0,
            r.spec_chunks() == Seq::<Seq<u8>>::empty(),
    {
        let r = SysexReassembler { group: 0, chunks: Vec::new(), total: 0 };
        proof {
            assert(r.spec_chunks() =~= Seq::<Seq<u8>>::empty());
        }
        r
    }
}

impl SysexReassembler {
    /// Maximum number of chunks accepted in one stream.
    pub const MAX_CHUNKS: usize = 1024;

    /// Maximum total payload bytes accepted in one stream (1 MiB).
    pub const MAX_BYTES: usize = 1048576;

    /// The group of the stream in flight.
    pub closed spec fn spec_group(&self) -> u8 {
        self.group
    }

    /// The chunks of the stream in flight.
    pub closed spec fn spec_chunks(&self) -> Seq<Seq<u8>> {
        self.chunks@.map_values(|c: Vec<u8>| c@)
    }

    /// The internal byte count matches the chunks held.
    pub closed spec fn wf(&self) -> bool {
        self.total == chunks_len(self.spec_chunks())
    }

    /// Feeds a SysEx chunk message. Returns the complete byte payload
    /// (without F0/F7) when the sequence finishes; chunks without a
    /// started stream, an End from another group, and streams over the
    /// limits are rejected with `InvalidData`.
    pub fn feed(&mut self, message: &SysExMessage) -> (r: Result<Option<Vec<u8>>, ControlError>)
        requires
            old(self).wf(),
        ensures
            final(self).wf(),
            ({
                let (g, cs, res) = spec_feed(old(self).spec_group(), old(self).spec_chunks(), message@);
                &&& final(self).spec_group() == g
                &&& final(self).spec_chunks() == cs
                &&& (r is Err <==> res is Err)
                &&& (r matches Err(e) ==> e is InvalidData)
                &&& (r matches Ok(o) ==> match o {
                    Some(v) => res == Ok::<Option<Seq<u8>>, ()>(Some(v@)),
                    None => res == Ok::<Option<Seq<u8>>, ()>(None),
                })
            }),
    {
        let ghost cs = self.spec_chunks();
        let status = message.status_code();
        let data = message.data();
        if status == 0 {
            proof {
                assert(data@.subrange(0, data@.len() as int) =~= data@);
            }
            return Ok(Some(copy_range(data, 0, data.len())));
        }
        if status == 1 {
            let mut chunks: Vec<Vec<u8>> = Vec::new();
            chunks.push(copy_range(data, 0, data.len()));
            self.group = message.group();
            self.chunks = chunks;
            self.total = data.len();
            proof {
                assert(data@.subrange(0, data@.len() as int) =~= data@);
                assert(self.spec_chunks() =~= seq![data@]);
                seq![data@].lemma_flatten_one_element();
            }
            return Ok(None);
        }
        if self.chunks.len() == 0 {
            return Err(invalid_data("sysex chunk without a start"));
        }
        if status == 3 && message.group() != self.group {
            return Err(invalid_data("sysex end group mismatch"));
        }
        if self.chunks.len() >= Self::MAX_CHUNKS || self.total > Self::MAX_BYTES
            || data.len() > Self::MAX_BYTES - self.total {
            self.chunks = Vec::new();
            self.total = 0;
            proof {
                assert(self.spec_chunks() =~= Seq::<Seq<u8>>::empty());
            }
            return Err(invalid_data("sysex chunk stream exceeded limits"));
        }
        let chunk = copy_range(data, 0, data.len());
        proof {
            assert(data@.subrange(0, data@.len() as int) =~= data@);
            cs.lemma_flatten_push(data@);
        }
        self.chunks.push(chunk);
        self.total = self.total + data.len();
        proof {
            assert(self.spec_chunks() =~= cs.push(data@));
        }
        if status == 2 {
            return Ok(None);
        }
        let mut all: Vec<u8> = Vec::new();
        let mut k: usize = 0;
        while k < self.chunks.len()
            invariant
                self.spec_chunks() == cs.push(data@),
                k <= self.chunks@.len(),
                all@ == self.spec_chunks().take(k as int).flatten(),
            decreases self.chunks@.len() - k,
        {
            let c = &self.chunks[k];
            let mut i: usize = 0;
            let ghost before = all@;
            while i < c.len()
                invariant
                    i <= c@.len(),
                    all@ == before + c@.take(i as int),
                decreases c@.len() - i,
            {
                all.push(c[i]);
                i += 1;
                proof {
                    assert(all@ =~= before + c@.take(i as int));
                }
            }
            proof {
                assert(c@.take(c@.len() as int) =~= c@);
                let t = self.spec_chunks().take(k as int);
                t.lemma_flatten_push(c@);
                assert(self.spec_chunks().take(k + 1) =~= t.push(c@));
            }
            k += 1;
        }
        proof {
            assert(self.spec_chunks().take(self.chunks@.len() as int) =~= self.spec_chunks());
        }
        self.chunks = Vec::new();
        self.total = 0;
        proof {
            assert(self.spec_chunks() =~= Seq::<Seq<u8>>::empty());
        }
        Ok(Some(all))
    }
}


/// Field extraction from MIDI 2.0 channel-voice first words.
proof fn lemma_cv_word0_fields(g: u32, op: u32, ch: u32, a: u32, b: u32, v: u32)
    requires
        g < 16,
        op < 16,
        ch < 16,
        a < 256,
        b < 256,
        v < 2,
    ensures
        ({
            let h = 0x4000_0000u32 | (g << 24u32) | (op << 20u32) | (ch << 16u32);
            let w1 = h | (a << 8u32) | b;
            let w2 = h | (a << 8u32);
            let w3 = h | (v << 15u32) | b;
            &&& (h >> 28u32) as u8 == 4 && (w1 >> 28u32) as u8 == 4 && (w2 >> 28u32) as u8 == 4 && (w3 >> 28u32) as u8 == 4
            &&& (h >> 24u32) & 0xF == g && (w1 >> 24u32) & 0xF == g && (w2 >> 24u32) & 0xF == g && (w3 >> 24u32) & 0xF == g
            &&& (h >> 20u32) & 0xF == op && (w1 >> 20u32) & 0xF == op && (w2 >> 20u32) & 0xF == op && (w3 >> 20u32) & 0xF == op
            &&& (h >> 16u32) & 0xF == ch && (w1 >> 16u32) & 0xF == ch && (w2 >> 16u32) & 0xF == ch && (w3 >> 16u32) & 0xF == ch
            &&& (w1 >> 8u32) & 0xFF == a && w1 & 0xFF == b
            &&& (w2 >> 8u32) & 0xFF == a && w2 & 0xFF == 0
            &&& (h >> 8u32) & 0xFF == 0 && h & 0xFF == 0
            &&& w3 & 0xFF == b && (w3 >> 15u32) & 1 == v
        }),
{
    assert({
        let h = 0x4000_0000u32 | (g << 24u32) | (op << 20u32) | (ch << 16u32);
        let w1 = h | (a << 8u32) | b;
        let w2 = h | (a << 8u32);
        let w3 = h | (v << 15u32) | b;
        &&& (h >> 28u32) as u8 == 4 && (w1 >> 28u32) as u8 == 4 && (w2 >> 28u32) as u8 == 4 && (w3 >> 28u32) as u8 == 4
        &&& (h >> 24u32) & 0xF == g && (w1 >> 24u32) & 0xF == g && (w2 >> 24u32) & 0xF == g && (w3 >> 24u32) & 0xF == g
        &&& (h >> 20u32) & 0xF == op && (w1 >> 20u32) & 0xF == op && (w2 >> 20u32) & 0xF == op && (w3 >> 20u32) & 0xF == op
        &&& (h >> 16u32) & 0xF == ch && (w1 >> 16u32) & 0xF == ch && (w2 >> 16u32) & 0xF == ch && (w3 >> 16u32) & 0xF == ch
        &&& (w1 >> 8u32) & 0xFF == a && w1 & 0xFF == b
        &&& (w2 >> 8u32) & 0xFF == a && w2 & 0xFF == 0
        &&& (h >> 8u32) & 0xFF == 0 && h & 0xFF == 0
        &&& w3 & 0xFF == b && (w3 >> 15u32) & 1 == v
    }) by (bit_vector)
        requires g < 16, op < 16, ch < 16, a < 256, b < 256, v < 2;
}

/// Field extraction from MIDI 2.0 channel-voice second words.
proof fn lemma_cv_word1_fields(vel: u16, attr: u16, prog: u8, msb: u8, lsb: u8)
    ensures
        ((((vel as u32) << 16u32) | (attr as u32)) & 0xFFFF) as u16 == attr,
        ((((vel as u32) << 16u32) | (attr as u32)) >> 16u32) as u16 == vel,
        ({
            let w = ((prog as u32) << 24u32) | (((msb & 0x7F) as u32) << 8u32) | ((lsb & 0x7F) as u32);
            &&& (w >> 24u32) as u8 == prog
            &&& ((w >> 8u32) & 0x7F) as u8 == msb & 0x7F
            &&& (w & 0x7F) as u8 == lsb & 0x7F
        }),
        forall|q: u8| #[trigger] (q & 0x7F) & 0x7F == q & 0x7F,
{
    assert(((((vel as u32) << 16u32) | (attr as u32)) & 0xFFFF) as u16 == attr
        && ((((vel as u32) << 16u32) | (attr as u32)) >> 16u32) as u16 == vel) by (bit_vector);
    assert({
        let w = ((prog as u32) << 24u32) | (((msb & 0x7F) as u32) << 8u32) | ((lsb & 0x7F) as u32);
        &&& (w >> 24u32) as u8 == prog
        &&& ((w >> 8u32) & 0x7F) as u8 == msb & 0x7F
        &&& (w & 0x7F) as u8 == lsb & 0x7F
    }) by (bit_vector);
    assert forall|q: u8| #[trigger] (q & 0x7F) & 0x7F == q & 0x7F by {
        assert((q & 0x7F) & 0x7F == q & 0x7F) by (bit_vector);
    }
}

/// A channel-voice message whose fields fit their wire fields: group and
/// channel below 16, parameter bank and index and bank-select bytes 7-bit.
pub open spec fn cv_wf(cv: Midi2ChannelVoice) -> bool {
    &&& cv.spec_group() < 16
    &&& cv.spec_channel() < 16
    &&& match cv {
        Midi2ChannelVoice::Rpn { bank, index, .. } => bank < 0x80 && index < 0x80,
        Midi2ChannelVoice::Nrpn { bank, index, .. } => bank < 0x80 && index < 0x80,
        Midi2ChannelVoice::RelativeRpn { bank, index, .. } => bank < 0x80 && index < 0x80,
        Midi2ChannelVoice::RelativeNrpn { bank, index, .. } => bank < 0x80 && index < 0x80,
        Midi2ChannelVoice::ProgramChange { bank_msb, bank_lsb, .. } => bank_msb < 0x80 && bank_lsb < 0x80,
        _ => true,
    }
}

/// Every well-formed MIDI 2.0 channel-voice message survives packing into
/// a UMP and parsing it back.
pub proof fn lemma_cv_roundtrip(cv: Midi2ChannelVoice)
    requires
        cv_wf(cv),
    ensures
        spec_parse_ump(spec_encode_ump(Midi2Spec::Midi2ChannelVoice(cv))) == Some(Midi2Spec::Midi2ChannelVoice(cv)),
{
    let g = cv.spec_group() as u32;
    let op = cv.spec_opcode() as u32;
    let ch = cv.spec_channel() as u32;
    let words = spec_encode_ump(Midi2Spec::Midi2ChannelVoice(cv));
    crate::midi1::lemma_status_bits(0);
    match cv {
        Midi2ChannelVoice::NoteOff { note, attribute_type, attribute, velocity, .. } => {
            lemma_cv_word0_fields(g, op, ch, note as u32, attribute_type as u32, 0);
            lemma_cv_word1_fields(velocity, attribute, 0, 0, 0);
        },
        Midi2ChannelVoice::NoteOn { note, attribute_type, attribute, velocity, .. } => {
            lemma_cv_word0_fields(g, op, ch, note as u32, attribute_type as u32, 0);
            lemma_cv_word1_fields(velocity, attribute, 0, 0, 0);
        },
        Midi2ChannelVoice::PolyphonicKeyPressure { note, .. } => {
            lemma_cv_word0_fields(g, op, ch, note as u32, 0, 0);
        },
        Midi2ChannelVoice::ControlChange { index, .. } => {
            lemma_cv_word0_fields(g, op, ch, index as u32, 0, 0);
        },
        Midi2ChannelVoice::PerNoteRcc { note, index, .. } => {
            lemma_cv_word0_fields(g, op, ch, note as u32, index as u32, 0);
        },
        Midi2ChannelVoice::PerNoteAcc { note, index, .. } => {
            lemma_cv_word0_fields(g, op, ch, note as u32, index as u32, 0);
        },
        Midi2ChannelVoice::Rpn { bank, index, .. } => {
            lemma_cv_word0_fields(g, op, ch, (bank & 0x7F) as u32, (index & 0x7F) as u32, 0);
        },
        Midi2ChannelVoice::Nrpn { bank, index, .. } => {
            lemma_cv_word0_fields(g, op, ch, (bank & 0x7F) as u32, (index & 0x7F) as u32, 0);
        },
        Midi2ChannelVoice::RelativeRpn { bank, index, .. } => {
            lemma_cv_word0_fields(g, op, ch, (bank & 0x7F) as u32, (index & 0x7F) as u32, 0);
        },
        Midi2ChannelVoice::RelativeNrpn { bank, index, .. } => {
            lemma_cv_word0_fields(g, op, ch, (bank & 0x7F) as u32, (index & 0x7F) as u32, 0);
        },
        Midi2ChannelVoice::PerNotePitchBend { note, .. } => {
            lemma_cv_word0_fields(g, op, ch, note as u32, 0, 0);
        },
        Midi2ChannelVoice::ProgramChange { option_flags, program, bank_valid, bank_msb, bank_lsb, .. } => {
            lemma_cv_word0_fields(g, op, ch, 0, option_flags as u32, if bank_valid { 1u32 } else { 0u32 });
            lemma_cv_word1_fields(0, 0, program, bank_msb, bank_lsb);
        },
        Midi2ChannelVoice::ChannelPressure { .. } => {
            lemma_cv_word0_fields(g, op, ch, 0, 0, 0);
        },
        Midi2ChannelVoice::PitchBend { .. } => {
            lemma_cv_word0_fields(g, op, ch, 0, 0, 0);
        },
        Midi2ChannelVoice::PerNoteManagement { note, option_flags, .. } => {
            lemma_cv_word0_fields(g, op, ch, note as u32, option_flags as u32, 0);
        },
    }
    assert(!(exists|i: int| 2 <= i < 4 && words[i] != 0));
}


/// The bytes of the first `n` words are four per word, big-endian.
proof fn lemma_words_to_bytes_index(words: Seq<u32>, n: nat, i: int, k: int)
    requires
        0 <= i < n,
        0 <= k < 4,
    ensures
        spec_words_to_bytes(words, n).len() == 4 * n,
        spec_words_to_bytes(words, n)[4 * i + k] == be_bytes(words[i])[k],
    decreases n,
{
    lemma_words_to_bytes_len(words, (n - 1) as nat);
    let prev = spec_words_to_bytes(words, (n - 1) as nat);
    assert(spec_words_to_bytes(words, n) == prev + be_bytes(words[n - 1]));
    if i < n - 1 {
        lemma_words_to_bytes_index(words, (n - 1) as nat, i, k);
    }
}

proof fn lemma_words_to_bytes_len(words: Seq<u32>, n: nat)
    ensures
        spec_words_to_bytes(words, n).len() == 4 * n,
    decreases n,
{
    if n > 0 {
        lemma_words_to_bytes_len(words, (n - 1) as nat);
    }
}

/// Serializing a packet to bytes and parsing the bytes gives the packet
/// back, when the words past its length are zero.
pub proof fn lemma_ump_bytes_roundtrip(words: Seq<u32>)
    requires
        words.len() == 4,
        forall|j: int| spec_num_words(spec_type_of(words[0])) <= j < 4 ==> words[j] == 0u32,
    ensures
        spec_ump_from_bytes(spec_words_to_bytes(words, spec_num_words(spec_type_of(words[0])))) == Some(words),
{
    let n = spec_num_words(spec_type_of(words[0]));
    let data = spec_words_to_bytes(words, n);
    lemma_words_to_bytes_len(words, n);
    assert forall|i: int| 0 <= i < n implies be_word(data, i) == words[i] by {
        lemma_words_to_bytes_index(words, n, i, 0);
        lemma_words_to_bytes_index(words, n, i, 1);
        lemma_words_to_bytes_index(words, n, i, 2);
        lemma_words_to_bytes_index(words, n, i, 3);
        let w = words[i];
        assert(((((w >> 24u32) as u8) as u32) << 24u32) | ((((w >> 16u32) as u8) as u32) << 16u32)
            | ((((w >> 8u32) as u8) as u32) << 8u32) | ((w as u8) as u32) == w) by (bit_vector);
    }
    let k = data.len() / 4;
    assert(k == n);
    let parsed = Seq::new(4, |i: int| if i < k { be_word(data, i) } else { 0u32 });
    assert(parsed =~= words);
}

/// The MIDI 1.0 message a channel-voice message comes back as after a
/// trip through MIDI 2.0: itself, except that a velocity-0 note on comes
/// back as a velocity-0 note off.
pub open spec fn spec_normalized(m: Midi1Spec) -> Midi1Spec {
    match m {
        Midi1Spec::NoteOn { channel, note, velocity } => if velocity == 0 {
            Midi1Spec::NoteOff { channel, note, velocity: 0 }
        } else {
            m
        },
        _ => m,
    }
}

/// A complete (or starting) sysex7 chunk with 7-bit data translates to
/// exactly one MIDI 1.0 System Exclusive message that is well formed
/// (framed by `F0` and `F7`), whose bytes between the framing are the
/// chunk's data, and which a MIDI 1.0 parser reads back from its own bytes;
/// continue and end chunks translate to nothing.
pub proof fn lemma_sysex_translation(s: SysExSpec)
    requires
        crate::midi1::all_7bit(s.data, 0, s.data.len() as int),
    ensures
        ({
            let out = spec_midi2_to_midi1(Midi2Spec::SystemExclusive(s));
            &&& s.status <= 1 ==> {
                &&& out.len() == 1
                &&& crate::midi1::spec_wf(out[0])
                &&& out[0] matches Midi1Spec::SystemExclusive(b) && b.len() == s.data.len() + 2
                    && b.subrange(1, b.len() - 1) == s.data
                &&& crate::midi1::spec_parse(crate::midi1::spec_encode(out[0])) == Some(out[0])
            }
            &&& s.status > 1 ==> out.len() == 0
        }),
{
    if s.status <= 1 {
        let b = seq![0xF0u8] + s.data + seq![0xF7u8];
        assert(b.subrange(1, b.len() - 1) =~= s.data);
        assert(crate::midi1::all_7bit(b, 1, b.len() - 1)) by {
            assert forall|i: int| 1 <= i < b.len() - 1 implies #[trigger] b[i] < 0x80 by {
                assert(b[i] == s.data[i - 1]);
            }
        }
        crate::midi1::lemma_encode_parse_roundtrip(Midi1Spec::SystemExclusive(b));
    }
}

/// Translating a well-formed MIDI 1.0 channel-voice or system message to
/// MIDI 2.0 and back gives the message back (a velocity-0 note on comes
/// back as a note off).
pub proof fn lemma_translation_stable(m: Midi1Spec, group: u8)
    requires
        crate::midi1::spec_wf(m),
        !(m is SystemExclusive),
    ensures
        spec_midi1_to_midi2(m, group).len() == 1,
        spec_midi2_to_midi1(spec_midi1_to_midi2(m, group)[0]) == seq![spec_normalized(m)],
{
    match m {
        Midi1Spec::NoteOff { velocity, .. } => {
            crate::midi1::lemma_scale_7_16_roundtrip(velocity as int);
            assert(crate::midi1::spec_scale_7_to_16(velocity as int) <= 0xFFFF) by (nonlinear_arith)
                requires velocity < 0x80;
        },
        Midi1Spec::NoteOn { velocity, .. } => {
            crate::midi1::lemma_scale_7_16_roundtrip(velocity as int);
            assert(crate::midi1::spec_scale_7_to_16(velocity as int) <= 0xFFFF) by (nonlinear_arith)
                requires velocity < 0x80;
            assert(crate::midi1::spec_scale_16_to_7(0) == 0);
        },
        Midi1Spec::PolyphonicKeyPressure { pressure, .. } => {
            crate::midi1::lemma_scale_7_32_roundtrip(pressure as int);
            assert(crate::midi1::spec_scale_7_to_32(pressure as int) <= 0xFFFF_FFFF) by (nonlinear_arith)
                requires pressure < 0x80;
        },
        Midi1Spec::ControlChange { value, .. } => {
            crate::midi1::lemma_scale_7_32_roundtrip(value as int);
            assert(crate::midi1::spec_scale_7_to_32(value as int) <= 0xFFFF_FFFF) by (nonlinear_arith)
                requires value < 0x80;
        },
        Midi1Spec::ChannelPressure { pressure, .. } => {
            crate::midi1::lemma_scale_7_32_roundtrip(pressure as int);
            assert(crate::midi1::spec_scale_7_to_32(pressure as int) <= 0xFFFF_FFFF) by (nonlinear_arith)
                requires pressure < 0x80;
        },
        Midi1Spec::PitchBendChange { value, .. } => {
            crate::midi1::lemma_scale_14_32_roundtrip(value as int);
        },
        _ => {},
    }
}

/// Field extraction from sysex7 packet words.
proof fn lemma_sysex7_fields(g: u32, st: u32, n: u32, b0: u32, b1: u32, b2: u32, b3: u32, b4: u32, b5: u32)
    requires
        g < 16,
        st < 16,
        n < 16,
        b0 < 0x80,
        b1 < 0x80,
        b2 < 0x80,
        b3 < 0x80,
        b4 < 0x80,
        b5 < 0x80,
    ensures
        ({
            let w0 = 0x3000_0000u32 | (g << 24u32) | (st << 20u32) | (n << 16u32) | (b0 << 8u32) | b1;
            let w1 = (b2 << 24u32) | (b3 << 16u32) | (b4 << 8u32) | b5;
            &&& (w0 >> 28u32) as u8 == 3
            &&& (w0 >> 24u32) & 0xF == g
            &&& (w0 >> 20u32) & 0xF == st
            &&& (w0 >> 16u32) & 0xF == n
            &&& (w0 >> 8u32) & 0x7F == b0
            &&& w0 & 0x7F == b1
            &&& (w1 >> 24u32) & 0x7F == b2
            &&& (w1 >> 16u32) & 0x7F == b3
            &&& (w1 >> 8u32) & 0x7F == b4
            &&& w1 & 0x7F == b5
        }),
{
    assert({
        let w0 = 0x3000_0000u32 | (g << 24u32) | (st << 20u32) | (n << 16u32) | (b0 << 8u32) | b1;
        let w1 = (b2 << 24u32) | (b3 << 16u32) | (b4 << 8u32) | b5;
        &&& (w0 >> 28u32) as u8 == 3
        &&& (w0 >> 24u32) & 0xF == g
        &&& (w0 >> 20u32) & 0xF == st
        &&& (w0 >> 16u32) & 0xF == n
        &&& (w0 >> 8u32) & 0x7F == b0
        &&& w0 & 0x7F == b1
        &&& (w1 >> 24u32) & 0x7F == b2
        &&& (w1 >> 16u32) & 0x7F == b3
        &&& (w1 >> 8u32) & 0x7F == b4
        &&& w1 & 0x7F == b5
    }) by (bit_vector)
        requires g < 16, st < 16, n < 16, b0 < 0x80, b1 < 0x80, b2 < 0x80, b3 < 0x80, b4 < 0x80, b5 < 0x80;
}

/// A sysex7 chunk of at most six 7-bit bytes, with a status of 0-3 and a
/// group of 0-15, survives packing into a UMP and parsing it back.
pub proof fn lemma_sysex7_roundtrip(s: SysExSpec)
    requires
        s.status <= 3,
        s.group < 16,
        s.data.len() <= 6,
        crate::midi1::all_7bit(s.data, 0, s.data.len() as int),
    ensures
        spec_parse_ump(spec_encode_ump(Midi2Spec::SystemExclusive(s))) == Some(Midi2Spec::SystemExclusive(s)),
{
    let d = s.data;
    assert forall|i: int| 0 <= i < 6 implies #[trigger] sysex_field(d, i) < 0x80 && (i < d.len() ==> sysex_field(d, i) == d[i]) by {
        if i < d.len() {
            crate::sysex::lemma_low7(d[i]);
        }
    }
    lemma_sysex7_fields(
        s.group as u32,
        s.status as u32,
        d.len() as u32,
        sysex_field(d, 0),
        sysex_field(d, 1),
        sysex_field(d, 2),
        sysex_field(d, 3),
        sysex_field(d, 4),
        sysex_field(d, 5),
    );
    let words = spec_encode_ump(Midi2Spec::SystemExclusive(s));
    assert(spec_num_words(spec_type_of(words[0])) == 2);
    assert(!(exists|i: int| 2 <= i < 4 && words[i] != 0));
    let parsed = Seq::new(d.len(), |i: int| spec_sysex_byte(words[0], words[1], i));
    assert(parsed =~= d);
}

/// The reassembler state and each feed's result after feeding `ms` in
/// order.
pub open spec fn spec_feed_all(group: u8, cs: Seq<Seq<u8>>, ms: Seq<SysExSpec>) -> (u8, Seq<Seq<u8>>, Seq<Result<Option<Seq<u8>>, ()>>)
    decreases ms.len(),
{
    if ms.len() == 0 {
        (group, cs, Seq::empty())
    } else {
        let prev = spec_feed_all(group, cs, ms.drop_last());
        let next = spec_feed(prev.0, prev.1, ms.last());
        (next.0, next.1, prev.2.push(next.2))
    }
}

/// The first `k` chunks of `data` joined give its first `6k` bytes.
proof fn lemma_chunks_flatten(data: Seq<u8>, k: int)
    requires
        0 <= k,
        6 * k <= data.len(),
    ensures
        Seq::new(k as nat, |j: int| chunk_of(data, j)).flatten() == data.take(6 * k),
    decreases k,
{
    let cs = Seq::new(k as nat, |j: int| chunk_of(data, j));
    if k == 0 {
        assert(cs =~= Seq::<Seq<u8>>::empty());
        assert(data.take(0) =~= Seq::<u8>::empty());
    } else {
        let prev = Seq::new((k - 1) as nat, |j: int| chunk_of(data, j));
        lemma_chunks_flatten(data, k - 1);
        assert(cs =~= prev.push(chunk_of(data, k - 1)));
        prev.lemma_flatten_push(chunk_of(data, k - 1));
        assert(data.take(6 * k) =~= data.take(6 * (k - 1)) + chunk_of(data, k - 1));
    }
}

/// Feeding the sysex7 chunks of a payload of at most 6144 bytes (1024
/// chunks), in order, to a reassembler in any state gives no output until
/// the last chunk, and then the payload.
pub proof fn lemma_sysex_reassembly(group0: u8, cs0: Seq<Seq<u8>>, g: u8, data: Seq<u8>)
    requires
        data.len() <= 6 * 1024,
    ensures
        ({
            let ms = spec_sysex_chunks(0, g, data);
            let outs = spec_feed_all(group0, cs0, ms).2;
            &&& outs.len() == ms.len()
            &&& outs.last() == Ok::<Option<Seq<u8>>, ()>(Some(data))
            &&& forall|i: int| 0 <= i < outs.len() - 1 ==> outs[i] == Ok::<Option<Seq<u8>>, ()>(None)
        }),
{
    let ms = spec_sysex_chunks(0, g, data);
    if data.len() <= 6 {
        reveal_with_fuel(spec_feed_all, 2);
        assert(ms.drop_last() =~= Seq::<SysExSpec>::empty());
    } else {
        let n = chunk_count(data.len());
        assert(n >= 2);
        let k = n - 1;
        lemma_reassembly_prefix(group0, cs0, g, data, k);
        assert(ms.take(n as int) =~= ms);
        assert(ms.take(n as int).drop_last() =~= ms.take(k));
        let cs = Seq::new(k as nat, |j: int| chunk_of(data, j));
        lemma_chunks_flatten(data, k);
        assert(6 * k < data.len());
        assert(chunk_of(data, k) =~= data.subrange(6 * k, data.len() as int));
        cs.lemma_flatten_push(chunk_of(data, k));
        assert(data.take(6 * k) + data.subrange(6 * k, data.len() as int) =~= data);
        assert(cs.push(chunk_of(data, k)).flatten() == data);
        assert(ms.len() == n);
        let m = ms[k];
        assert(ms.last() == m);
        assert(m.status == 3 && m.group == g && m.data == chunk_of(data, k));
        assert(chunks_len(cs) == 6 * k);
        let stk = spec_feed_all(group0, cs0, ms.take(k));
        assert(ms.drop_last() =~= ms.take(k));
        let outs = spec_feed_all(group0, cs0, ms).2;
        assert(outs == stk.2.push(Ok::<Option<Seq<u8>>, ()>(Some(data))));
        assert forall|i: int| 0 <= i < outs.len() - 1 implies outs[i] == Ok::<Option<Seq<u8>>, ()>(None) by {
            assert(outs[i] == stk.2[i]);
        }
    }
}

/// Feeding the first `k` chunks of a multi-chunk payload starts a stream
/// of group `g` holding those chunks, with no output.
proof fn lemma_reassembly_prefix(group0: u8, cs0: Seq<Seq<u8>>, g: u8, data: Seq<u8>, k: int)
    requires
        6 < data.len() <= 6 * 1024,
        1 <= k < chunk_count(data.len()),
    ensures
        ({
            let st = spec_feed_all(group0, cs0, spec_sysex_chunks(0, g, data).take(k));
            &&& st.0 == g
            &&& st.1 == Seq::new(k as nat, |j: int| chunk_of(data, j))
            &&& st.2.len() == k
            &&& forall|i: int| 0 <= i < k ==> st.2[i] == Ok::<Option<Seq<u8>>, ()>(None)
        }),
    decreases k,
{
    let ms = spec_sysex_chunks(0, g, data);
    let n = chunk_count(data.len());
    assert(ms.len() == n);
    let m = ms[k - 1];
    assert(ms.take(k).last() == m);
    assert(m.group == g && m.data == chunk_of(data, k - 1));
    if k == 1 {
        assert(m.status == 1);
        assert(ms.take(1).drop_last() =~= Seq::<SysExSpec>::empty());
        assert(Seq::new(1, |j: int| chunk_of(data, j)) =~= seq![chunk_of(data, 0)]);
        reveal_with_fuel(spec_feed_all, 2);
        let st = spec_feed_all(group0, cs0, ms.take(1));
        assert(st.2 =~= seq![Ok::<Option<Seq<u8>>, ()>(None)]);
    } else {
        assert(m.status == 2);
        lemma_reassembly_prefix(group0, cs0, g, data, k - 1);
        assert(ms.take(k).drop_last() =~= ms.take(k - 1));
        let prev = Seq::new((k - 1) as nat, |j: int| chunk_of(data, j));
        lemma_chunks_flatten(data, k - 1);
        assert(chunks_len(prev) == 6 * (k - 1));
        assert(chunk_of(data, k - 1).len() == 6);
        assert(Seq::new(k as nat, |j: int| chunk_of(data, j)) =~= prev.push(chunk_of(data, k - 1)));
        let st0 = spec_feed_all(group0, cs0, ms.take(k - 1));
        let st = spec_feed_all(group0, cs0, ms.take(k));
        assert(st.2 == st0.2.push(Ok::<Option<Seq<u8>>, ()>(None)));
        assert forall|i: int| 0 <= i < k implies st.2[i] == Ok::<Option<Seq<u8>>, ()>(None) by {
            if i < k - 1 {
                assert(st.2[i] == st0.2[i]);
            }
        }
    }
}

/// A chunked stream of group `g` carrying the pieces `ds`: a start chunk,
/// continue chunks, and an end chunk.
pub open spec fn spec_stream(g: u8, ds: Seq<Seq<u8>>) -> Seq<SysExSpec> {
    Seq::new(
        ds.len(),
        |i: int|
            SysExSpec {
                status: if i == 0 {
                    1u8
                } else if i == ds.len() - 1 {
                    3u8
                } else {
                    2u8
                },
                group: g,
                data: ds[i],
            },
    )
}

/// Joining the first `k` pieces gives no more bytes than joining the first
/// `j`, for `k <= j`.
proof fn lemma_flatten_take_mono(ds: Seq<Seq<u8>>, k: int, j: int)
    requires
        0 <= k <= j <= ds.len(),
    ensures
        ds.take(k).flatten().len() <= ds.take(j).flatten().len(),
    decreases j - k,
{
    if k < j {
        lemma_flatten_take_mono(ds, k, j - 1);
        assert(ds.take(j) =~= ds.take(j - 1).push(ds[j - 1]));
        ds.take(j - 1).lemma_flatten_push(ds[j - 1]);
    }
}

/// Feeding the first `k` chunks of a stream starts it and holds them, with
/// no output.
proof fn lemma_stream_prefix(group0: u8, cs0: Seq<Seq<u8>>, g: u8, ds: Seq<Seq<u8>>, k: int)
    requires
        2 <= ds.len() <= 1024,
        ds.flatten().len() <= 1024 * 1024,
        1 <= k < ds.len(),
    ensures
        ({
            let st = spec_feed_all(group0, cs0, spec_stream(g, ds).take(k));
            &&& st.0 == g
            &&& st.1 == ds.take(k)
            &&& st.2.len() == k
            &&& forall|i: int| 0 <= i < k ==> st.2[i] == Ok::<Option<Seq<u8>>, ()>(None)
        }),
    decreases k,
{
    let ms = spec_stream(g, ds);
    let m = ms[k - 1];
    assert(ms.take(k).last() == m);
    if k == 1 {
        assert(ms.take(1).drop_last() =~= Seq::<SysExSpec>::empty());
        assert(ds.take(1) =~= seq![ds[0]]);
        reveal_with_fuel(spec_feed_all, 2);
        let st = spec_feed_all(group0, cs0, ms.take(1));
        assert(st.2 =~= seq![Ok::<Option<Seq<u8>>, ()>(None)]);
    } else {
        lemma_stream_prefix(group0, cs0, g, ds, k - 1);
        assert(ms.take(k).drop_last() =~= ms.take(k - 1));
        assert(ds.take(k) =~= ds.take(k - 1).push(ds[k - 1]));
        ds.take(k - 1).lemma_flatten_push(ds[k - 1]);
        lemma_flatten_take_mono(ds, k, ds.len() as int);
        assert(ds.take(ds.len() as int) =~= ds);
        let st0 = spec_feed_all(group0, cs0, ms.take(k - 1));
        let st = spec_feed_all(group0, cs0, ms.take(k));
        assert(st.2 == st0.2.push(Ok::<Option<Seq<u8>>, ()>(None)));
        assert forall|i: int| 0 <= i < k implies st.2[i] == Ok::<Option<Seq<u8>>, ()>(None) by {
            if i < k - 1 {
                assert(st.2[i] == st0.2[i]);
            }
        }
    }
}

/// Feeding a chunked stream of any chunk sizes, at most 1024 chunks and
/// 1 MiB in all, to a reassembler in any state gives no output until the
/// end chunk, and then the chunks joined in order.
pub proof fn lemma_stream_reassembly(group0: u8, cs0: Seq<Seq<u8>>, g: u8, ds: Seq<Seq<u8>>)
    requires
        2 <= ds.len() <= 1024,
        ds.flatten().len() <= 1024 * 1024,
    ensures
        ({
            let ms = spec_stream(g, ds);
            let outs = spec_feed_all(group0, cs0, ms).2;
            &&& outs.len() == ms.len()
            &&& outs.last() == Ok::<Option<Seq<u8>>, ()>(Some(ds.flatten()))
            &&& forall|i: int| 0 <= i < outs.len() - 1 ==> outs[i] == Ok::<Option<Seq<u8>>, ()>(None)
        }),
{
    let ms = spec_stream(g, ds);
    let n = ds.len() as int;
    let k = n - 1;
    lemma_stream_prefix(group0, cs0, g, ds, k);
    assert(ms.drop_last() =~= ms.take(k));
    assert(ds.take(n) =~= ds);
    assert(ds =~= ds.take(k).push(ds[k]));
    ds.take(k).lemma_flatten_push(ds[k]);
    let stk = spec_feed_all(group0, cs0, ms.take(k));
    let m = ms.last();
    assert(m.status == 3 && m.group == g && m.data == ds[k]);
    let outs = spec_feed_all(group0, cs0, ms).2;
    assert(outs == stk.2.push(Ok::<Option<Seq<u8>>, ()>(Some(ds.flatten()))));
    assert forall|i: int| 0 <= i < outs.len() - 1 implies outs[i] == Ok::<Option<Seq<u8>>, ()>(None) by {
        assert(outs[i] == stk.2[i]);
    }
}

/// The reassembler stays bounded under any chunk stream: it never holds
/// more than 1024 chunks, and it holds more than 1 MiB only when a single
/// start chunk is that large.
pub proof fn lemma_feed_bounded(group: u8, cs: Seq<Seq<u8>>, m: SysExSpec)
    requires
        cs.len() <= 1024,
        chunks_len(cs) <= 1024 * 1024,
    ensures
        spec_feed(group, cs, m).1.len() <= 1024,
        chunks_len(spec_feed(group, cs, m).1) <= 1024 * 1024 || (m.status == 1 && spec_feed(group, cs, m).1
            == seq![m.data]),
{
    cs.lemma_flatten_push(m.data);
    if m.status == 1 {
        seq![m.data].lemma_flatten_one_element();
    }
    assert(Seq::<Seq<u8>>::empty().flatten() =~= Seq::<u8>::empty());
}

} // verus!
