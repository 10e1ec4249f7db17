//! What parsing a packed Universal MIDI Packet gives back.
use vstd::prelude::*;

use crate::messages::{
    lemma_data_format_roundtrip, spec_message_type, FlexSpec, Midi1CvSpec, Midi2Spec, SystemCommonMessage, UtilityMessage,
};
use crate::midi1::Midi1Spec;
use crate::ump::{
    cv_wf, lemma_cv_roundtrip, lemma_sysex7_roundtrip, spec_decode_text, spec_encode_ump, spec_flex_word0, text_bytes,
    spec_parse_ump, spec_type_of, text_field, text_word,
};

verus! {

/// Field extraction from utility words.
proof fn lemma_utility_words(c: u16, t: u16)
    ensures
        (0u32 >> 28u32) as u8 == 0 && (0u32 >> 20u32) & 0xF == 0,
        ((0x0010_0000u32 | (c as u32)) >> 28u32) as u8 == 0,
        ((0x0010_0000u32 | (c as u32)) >> 20u32) & 0xF == 1,
        ((0x0010_0000u32 | (c as u32)) & 0xFFFF) as u16 == c,
        ((0x0020_0000u32 | (t as u32)) >> 28u32) as u8 == 0,
        ((0x0020_0000u32 | (t as u32)) >> 20u32) & 0xF == 2,
        ((0x0020_0000u32 | (t as u32)) & 0xFFFF) as u16 == t,
{
    assert({
        &&& (0u32 >> 28u32) as u8 == 0 && (0u32 >> 20u32) & 0xF == 0
        &&& ((0x0010_0000u32 | (c as u32)) >> 28u32) as u8 == 0
        &&& ((0x0010_0000u32 | (c as u32)) >> 20u32) & 0xF == 1
        &&& ((0x0010_0000u32 | (c as u32)) & 0xFFFF) as u16 == c
        &&& ((0x0020_0000u32 | (t as u32)) >> 28u32) as u8 == 0
        &&& ((0x0020_0000u32 | (t as u32)) >> 20u32) & 0xF == 2
        &&& ((0x0020_0000u32 | (t as u32)) & 0xFFFF) as u16 == t
    }) by (bit_vector);
}

/// Field extraction from a system common word `0x1g_sspp_qq`: the type,
/// group and status fields, and the two 7-bit data fields.
proof fn lemma_common_word(g: u32, s: u32, hi: u32, lo: u32)
    requires
        g < 16,
        0xF0 <= s < 0x100,
        hi < 0x80,
        lo < 0x80,
    ensures
        ({
            let w = 0x1000_0000u32 | (g << 24u32) | ((s << 16u32) | (hi << 8u32) | lo);
            &&& (w >> 28u32) as u8 == 1
            &&& (w >> 24u32) & 0xF == g
            &&& (w >> 16u32) & 0xFF == s
            &&& ((w >> 8u32) & 0x7F) as u8 == hi as u8
            &&& (w & 0x7F) as u8 == lo as u8
        }),
{
    assert({
        let w = 0x1000_0000u32 | (g << 24u32) | ((s << 16u32) | (hi << 8u32) | lo);
        &&& (w >> 28u32) as u8 == 1
        &&& (w >> 24u32) & 0xF == g
        &&& (w >> 16u32) & 0xFF == s
        &&& ((w >> 8u32) & 0x7F) as u8 == hi as u8
        &&& (w & 0x7F) as u8 == lo as u8
    }) by (bit_vector)
        requires g < 16, 0xF0 <= s < 0x100, hi < 0x80, lo < 0x80;
}

/// The bodies of system common messages, as status, high and low data
/// fields.
proof fn lemma_common_bodies(q: u8, p: u16, song: u8)
    requires
        q < 0x80,
        p < 0x4000,
        song < 0x80,
    ensures
        0x00F1_0000u32 | (((q & 0x7F) as u32) << 8u32) == (0xF1u32 << 16u32) | ((q as u32) << 8u32) | 0u32,
        0x00F2_0000u32 | (((p & 0x7F) as u32) << 8u32) | (((p >> 7u16) & 0x7F) as u32) == (0xF2u32 << 16u32)
            | (((p & 0x7F) as u32) << 8u32) | (((p >> 7u16) & 0x7F) as u32),
        ((p & 0x7F) as u32) < 0x80 && (((p >> 7u16) & 0x7F) as u32) < 0x80,
        ((((p >> 7u16) & 0x7F) as u32) as u8 as u16) << 7u16 | ((((p & 0x7F) as u32) as u8) as u16) == p,
        0x00F3_0000u32 | (((song & 0x7F) as u32) << 8u32) == (0xF3u32 << 16u32) | ((song as u32) << 8u32) | 0u32,
        0x00F6_0000u32 == (0xF6u32 << 16u32) | (0u32 << 8u32) | 0u32,
        0x00F8_0000u32 == (0xF8u32 << 16u32) | (0u32 << 8u32) | 0u32,
        0x00FA_0000u32 == (0xFAu32 << 16u32) | (0u32 << 8u32) | 0u32,
        0x00FB_0000u32 == (0xFBu32 << 16u32) | (0u32 << 8u32) | 0u32,
        0x00FC_0000u32 == (0xFCu32 << 16u32) | (0u32 << 8u32) | 0u32,
        0x00FE_0000u32 == (0xFEu32 << 16u32) | (0u32 << 8u32) | 0u32,
        0x00FF_0000u32 == (0xFFu32 << 16u32) | (0u32 << 8u32) | 0u32,
{
    assert({
        &&& 0x00F1_0000u32 | (((q & 0x7F) as u32) << 8u32) == (0xF1u32 << 16u32) | ((q as u32) << 8u32) | 0u32
        &&& 0x00F2_0000u32 | (((p & 0x7F) as u32) << 8u32) | (((p >> 7u16) & 0x7F) as u32) == (0xF2u32 << 16u32)
            | (((p & 0x7F) as u32) << 8u32) | (((p >> 7u16) & 0x7F) as u32)
        &&& ((p & 0x7F) as u32) < 0x80 && (((p >> 7u16) & 0x7F) as u32) < 0x80
        &&& ((((p >> 7u16) & 0x7F) as u32) as u8 as u16) << 7u16 | ((((p & 0x7F) as u32) as u8) as u16) == p
        &&& 0x00F3_0000u32 | (((song & 0x7F) as u32) << 8u32) == (0xF3u32 << 16u32) | ((song as u32) << 8u32) | 0u32
        &&& 0x00F6_0000u32 == (0xF6u32 << 16u32) | (0u32 << 8u32) | 0u32
        &&& 0x00F8_0000u32 == (0xF8u32 << 16u32) | (0u32 << 8u32) | 0u32
        &&& 0x00FA_0000u32 == (0xFAu32 << 16u32) | (0u32 << 8u32) | 0u32
        &&& 0x00FB_0000u32 == (0xFBu32 << 16u32) | (0u32 << 8u32) | 0u32
        &&& 0x00FC_0000u32 == (0xFCu32 << 16u32) | (0u32 << 8u32) | 0u32
        &&& 0x00FE_0000u32 == (0xFEu32 << 16u32) | (0u32 << 8u32) | 0u32
        &&& 0x00FF_0000u32 == (0xFFu32 << 16u32) | (0u32 << 8u32) | 0u32
    }) by (bit_vector)
        requires q < 0x80, p < 0x4000, song < 0x80;
}

/// A system common message with a group below 16 and 7-bit (14-bit for
/// the song position) data.
pub open spec fn common_fields_in_range(s: SystemCommonMessage) -> bool {
    &&& s.spec_group() < 16
    &&& match s {
        SystemCommonMessage::TimeCodeQuarterFrame { quarter_frame, .. } => quarter_frame < 0x80,
        SystemCommonMessage::SongPositionPointer { position, .. } => position < 0x4000,
        SystemCommonMessage::SongSelect { song, .. } => song < 0x80,
        _ => true,
    }
}

proof fn lemma_common_roundtrip(s: SystemCommonMessage)
    requires
        common_fields_in_range(s),
    ensures
        spec_parse_ump(spec_encode_ump(Midi2Spec::SystemCommon(s))) == Some(Midi2Spec::SystemCommon(s)),
{
    let g = s.spec_group() as u32;
    let words = spec_encode_ump(Midi2Spec::SystemCommon(s));
    match s {
        SystemCommonMessage::TimeCodeQuarterFrame { quarter_frame, .. } => {
            lemma_common_bodies(quarter_frame, 0, 0);
            lemma_common_word(g, 0xF1, quarter_frame as u32, 0);
        },
        SystemCommonMessage::SongPositionPointer { position, .. } => {
            lemma_common_bodies(0, position, 0);
            lemma_common_word(g, 0xF2, ((position & 0x7F) as u32), (((position >> 7u16) & 0x7F) as u32));
        },
        SystemCommonMessage::SongSelect { song, .. } => {
            lemma_common_bodies(0, 0, song);
            lemma_common_word(g, 0xF3, song as u32, 0);
        },
        SystemCommonMessage::TuneRequest { .. } => {
            lemma_common_bodies(0, 0, 0);
            lemma_common_word(g, 0xF6, 0, 0);
        },
        SystemCommonMessage::TimingClock { .. } => {
            lemma_common_bodies(0, 0, 0);
            lemma_common_word(g, 0xF8, 0, 0);
        },
        SystemCommonMessage::Start { .. } => {
            lemma_common_bodies(0, 0, 0);
            lemma_common_word(g, 0xFA, 0, 0);
        },
        SystemCommonMessage::Continue { .. } => {
            lemma_common_bodies(0, 0, 0);
            lemma_common_word(g, 0xFB, 0, 0);
        },
        SystemCommonMessage::Stop { .. } => {
            lemma_common_bodies(0, 0, 0);
            lemma_common_word(g, 0xFC, 0, 0);
        },
        SystemCommonMessage::ActiveSensing { .. } => {
            lemma_common_bodies(0, 0, 0);
            lemma_common_word(g, 0xFE, 0, 0);
        },
        SystemCommonMessage::SystemReset { .. } => {
            lemma_common_bodies(0, 0, 0);
            lemma_common_word(g, 0xFF, 0, 0);
        },
    }
    assert(words[1] == 0 && words[2] == 0 && words[3] == 0);
}

proof fn lemma_utility_roundtrip(u: UtilityMessage)
    ensures
        spec_parse_ump(spec_encode_ump(Midi2Spec::Utility(u))) == Some(Midi2Spec::Utility(u)),
{
    match u {
        UtilityMessage::NoOp => lemma_utility_words(0, 0),
        UtilityMessage::Clock { clock } => lemma_utility_words(clock, 0),
        UtilityMessage::Timestamp { timestamp } => lemma_utility_words(0, timestamp),
    }
}

/// Field extraction from a MIDI 1.0 channel-voice word `0x2g_kc_hh_ll`.
proof fn lemma_midi1_word(g: u32, k: u32, c: u32, hi: u32, lo: u32)
    requires
        g < 16,
        k < 16,
        c < 16,
        hi < 0x80,
        lo < 0x80,
    ensures
        ({
            let w = 0x2000_0000u32 | (g << 24u32) | (((k << 4u32) | c) << 16u32) | ((hi << 8u32) | lo);
            &&& (w >> 28u32) as u8 == 2
            &&& (w >> 24u32) & 0xF == g
            &&& (w >> 20u32) & 0xF == k
            &&& (w >> 16u32) & 0xF == c
            &&& ((w >> 8u32) & 0x7F) as u8 == hi as u8
            &&& (w & 0x7F) as u8 == lo as u8
        }),
{
    assert({
        let w = 0x2000_0000u32 | (g << 24u32) | (((k << 4u32) | c) << 16u32) | ((hi << 8u32) | lo);
        &&& (w >> 28u32) as u8 == 2
        &&& (w >> 24u32) & 0xF == g
        &&& (w >> 20u32) & 0xF == k
        &&& (w >> 16u32) & 0xF == c
        &&& ((w >> 8u32) & 0x7F) as u8 == hi as u8
        &&& (w & 0x7F) as u8 == lo as u8
    }) by (bit_vector)
        requires g < 16, k < 16, c < 16, hi < 0x80, lo < 0x80;
}

/// Channel-voice status bytes as their kind nibble and channel.
proof fn lemma_status_words(c: u8, x: u32)
    requires
        c < 16,
    ensures
        (0x80u8 | c) as u32 == (8u32 << 4u32) | (c as u32),
        (0x90u8 | c) as u32 == (9u32 << 4u32) | (c as u32),
        (0xA0u8 | c) as u32 == (0xAu32 << 4u32) | (c as u32),
        (0xB0u8 | c) as u32 == (0xBu32 << 4u32) | (c as u32),
        (0xC0u8 | c) as u32 == (0xCu32 << 4u32) | (c as u32),
        (0xD0u8 | c) as u32 == (0xDu32 << 4u32) | (c as u32),
        (0xE0u8 | c) as u32 == (0xEu32 << 4u32) | (c as u32),
        x << 8u32 == (x << 8u32) | 0u32,
{
    assert({
        &&& (0x80u8 | c) as u32 == (8u32 << 4u32) | (c as u32)
        &&& (0x90u8 | c) as u32 == (9u32 << 4u32) | (c as u32)
        &&& (0xA0u8 | c) as u32 == (0xAu32 << 4u32) | (c as u32)
        &&& (0xB0u8 | c) as u32 == (0xBu32 << 4u32) | (c as u32)
        &&& (0xC0u8 | c) as u32 == (0xCu32 << 4u32) | (c as u32)
        &&& (0xD0u8 | c) as u32 == (0xDu32 << 4u32) | (c as u32)
        &&& (0xE0u8 | c) as u32 == (0xEu32 << 4u32) | (c as u32)
        &&& x << 8u32 == (x << 8u32) | 0u32
    }) by (bit_vector)
        requires c < 16;
}

/// A MIDI 1.0 channel-voice message with a channel below 16 and 7-bit
/// data (14-bit for pitch bend).
pub open spec fn midi1_cv_in_range(m: Midi1Spec) -> bool {
    match m {
        Midi1Spec::NoteOff { channel, note, velocity } => channel < 16 && note < 0x80 && velocity < 0x80,
        Midi1Spec::NoteOn { channel, note, velocity } => channel < 16 && note < 0x80 && velocity < 0x80,
        Midi1Spec::PolyphonicKeyPressure { channel, note, pressure } => channel < 16 && note < 0x80 && pressure < 0x80,
        Midi1Spec::ControlChange { channel, controller, value } => channel < 16 && controller < 0x80 && value < 0x80,
        Midi1Spec::ProgramChange { channel, program } => channel < 16 && program < 0x80,
        Midi1Spec::ChannelPressure { channel, pressure } => channel < 16 && pressure < 0x80,
        Midi1Spec::PitchBendChange { channel, value } => channel < 16 && value < 0x4000,
        _ => false,
    }
}

proof fn lemma_midi1_cv_roundtrip(cv: Midi1CvSpec)
    requires
        cv.group < 16,
        midi1_cv_in_range(cv.message),
    ensures
        spec_parse_ump(spec_encode_ump(Midi2Spec::Midi1ChannelVoice(cv))) == Some(Midi2Spec::Midi1ChannelVoice(cv)),
{
    let g = cv.group as u32;
    let words = spec_encode_ump(Midi2Spec::Midi1ChannelVoice(cv));
    match cv.message {
        Midi1Spec::NoteOff { channel, note, velocity } => {
            lemma_status_words(channel, 0);
            lemma_midi1_word(g, 8, channel as u32, note as u32, velocity as u32);
        },
        Midi1Spec::NoteOn { channel, note, velocity } => {
            lemma_status_words(channel, 0);
            lemma_midi1_word(g, 9, channel as u32, note as u32, velocity as u32);
        },
        Midi1Spec::PolyphonicKeyPressure { channel, note, pressure } => {
            lemma_status_words(channel, 0);
            lemma_midi1_word(g, 0xA, channel as u32, note as u32, pressure as u32);
        },
        Midi1Spec::ControlChange { channel, controller, value } => {
            lemma_status_words(channel, 0);
            lemma_midi1_word(g, 0xB, channel as u32, controller as u32, value as u32);
        },
        Midi1Spec::ProgramChange { channel, program } => {
            lemma_status_words(channel, program as u32);
            lemma_midi1_word(g, 0xC, channel as u32, program as u32, 0);
        },
        Midi1Spec::ChannelPressure { channel, pressure } => {
            lemma_status_words(channel, pressure as u32);
            lemma_midi1_word(g, 0xD, channel as u32, pressure as u32, 0);
        },
        Midi1Spec::PitchBendChange { channel, value } => {
            lemma_status_words(channel, 0);
            lemma_common_bodies(0, value, 0);
            lemma_midi1_word(g, 0xE, channel as u32, ((value & 0x7F) as u32), (((value >> 7u16) & 0x7F) as u32));
        },
        _ => {},
    }
    assert(words[1] == 0 && words[2] == 0 && words[3] == 0);
}

/// Field extraction from flex-data words: the header fields and the time
/// signature fields.
proof fn lemma_flex_words(g: u8, fb: u8, bank: u8, status: u8, channel: u8, num: u8, den: u8, ts: u8)
    requires
        g < 16,
        fb < 4,
        bank < 4,
        status < 0x80,
        channel < 16,
        den < 0x80,
        ts < 0x80,
    ensures
        ({
            let w = (0xDu32 << 28u32) | ((g as u32) << 24u32) | ((fb as u32) << 22u32) | (((bank & 0x3) as u32)
                << 20u32) | (((channel & 0xF) as u32) << 8u32) | ((status & 0x7F) as u32);
            let w1 = ((num as u32) << 24u32) | (((den & 0x7F) as u32) << 16u32) | (((ts & 0x7F) as u32) << 8u32);
            &&& (w >> 28u32) as u8 == 0xD
            &&& ((w >> 24u32) & 0xF) as u8 == g
            &&& ((w >> 22u32) & 0x3) as u8 == fb
            &&& ((w >> 20u32) & 0x3) as u8 == bank
            &&& (w & 0x7F) as u8 == status
            &&& ((w >> 8u32) & 0xF) as u8 == channel
            &&& (w1 >> 24u32) as u8 == num
            &&& ((w1 >> 16u32) & 0x7F) as u8 == den
            &&& ((w1 >> 8u32) & 0x7F) as u8 == ts
        }),
{
    assert({
        let w = (0xDu32 << 28u32) | ((g as u32) << 24u32) | ((fb as u32) << 22u32) | (((bank & 0x3) as u32)
            << 20u32) | (((channel & 0xF) as u32) << 8u32) | ((status & 0x7F) as u32);
        let w1 = ((num as u32) << 24u32) | (((den & 0x7F) as u32) << 16u32) | (((ts & 0x7F) as u32) << 8u32);
        &&& (w >> 28u32) as u8 == 0xD
        &&& ((w >> 24u32) & 0xF) as u8 == g
        &&& ((w >> 22u32) & 0x3) as u8 == fb
        &&& ((w >> 20u32) & 0x3) as u8 == bank
        &&& (w & 0x7F) as u8 == status
        &&& ((w >> 8u32) & 0xF) as u8 == channel
        &&& (w1 >> 24u32) as u8 == num
        &&& ((w1 >> 16u32) & 0x7F) as u8 == den
        &&& ((w1 >> 8u32) & 0x7F) as u8 == ts
    }) by (bit_vector)
        requires g < 16, fb < 4, bank < 4, status < 0x80, channel < 16, den < 0x80, ts < 0x80;
}

/// Field extraction from a text word of four 7-bit fields.
proof fn lemma_text_word(f0: u32, f1: u32, f2: u32, f3: u32)
    requires
        f0 < 0x80,
        f1 < 0x80,
        f2 < 0x80,
        f3 < 0x80,
    ensures
        ({
            let w = (f0 << 24u32) | (f1 << 16u32) | (f2 << 8u32) | f3;
            &&& ((w >> 24u32) & 0x7F) as u8 == f0 as u8
            &&& ((w >> 16u32) & 0x7F) as u8 == f1 as u8
            &&& ((w >> 8u32) & 0x7F) as u8 == f2 as u8
            &&& (w & 0x7F) as u8 == f3 as u8
            &&& ((w >> 0u32) & 0x7F) as u8 == f3 as u8
        }),
        (0u32 << 24u32) | (0u32 << 16u32) | (0u32 << 8u32) | 0u32 == 0u32,
{
    assert({
        let w = (f0 << 24u32) | (f1 << 16u32) | (f2 << 8u32) | f3;
        &&& ((w >> 24u32) & 0x7F) as u8 == f0 as u8
        &&& ((w >> 16u32) & 0x7F) as u8 == f1 as u8
        &&& ((w >> 8u32) & 0x7F) as u8 == f2 as u8
        &&& (w & 0x7F) as u8 == f3 as u8
        &&& ((w >> 0u32) & 0x7F) as u8 == f3 as u8
        &&& (0u32 << 24u32) | (0u32 << 16u32) | (0u32 << 8u32) | 0u32 == 0u32
    }) by (bit_vector)
        requires f0 < 0x80, f1 < 0x80, f2 < 0x80, f3 < 0x80;
}

/// A status that parses as neither tempo, time signature nor text.
pub open spec fn is_other_flex_status(status: u8) -> bool {
    !(status == 0 || status == 1 || 4 <= status <= 0xC)
}

/// A flex-data message whose fields fit their bit widths: for text, at
/// most twelve ASCII characters (the three data words hold twelve), none
/// of them NUL; for any other status, the four words it carries begin
/// with its own header.
pub open spec fn flex_fields_in_range(f: FlexSpec) -> bool {
    match f {
        FlexSpec::SetTempo { group, .. } => group < 16,
        FlexSpec::TimeSignature { group, denominator_exponent, thirty_seconds, .. } => group < 16
            && denominator_exponent < 0x80 && thirty_seconds < 0x80,
        FlexSpec::Text { group, bank, status, channel, text, .. } => {
            &&& group < 16 && bank < 4 && channel < 16
            &&& 4 <= status <= 0xC
            &&& text.len() <= 12
            &&& vstd::utf8::is_ascii_chars(text)
            &&& forall|i: int| 0 <= i < text.len() ==> #[trigger] text[i] != '\0'
        },
        FlexSpec::Other { group, format, bank, status, channel, data } => {
            &&& group < 16 && bank < 4 && channel < 16 && status < 0x80
            &&& is_other_flex_status(status)
            &&& data.len() == 4
            &&& data[0] == spec_flex_word0(group, format, bank, status, channel)
        },
    }
}

proof fn lemma_flex_roundtrip(f: FlexSpec)
    requires
        flex_fields_in_range(f),
    ensures
        spec_parse_ump(spec_encode_ump(Midi2Spec::FlexData(f))) == Some(Midi2Spec::FlexData(f)),
{
    let words = spec_encode_ump(Midi2Spec::FlexData(f));
    match f {
        FlexSpec::SetTempo { group, format, tempo } => {
            lemma_data_format_roundtrip(format, 0);
            lemma_flex_words(group, format.spec_to_bits(), 1, 0, 0, 0, 0, 0);
        },
        FlexSpec::TimeSignature { group, format, numerator, denominator_exponent, thirty_seconds } => {
            lemma_data_format_roundtrip(format, 0);
            lemma_flex_words(group, format.spec_to_bits(), 1, 1, 0, numerator, denominator_exponent, thirty_seconds);
        },
        FlexSpec::Text { group, format, bank, status, channel, text } => {
            lemma_data_format_roundtrip(format, 0);
            lemma_flex_words(group, format.spec_to_bits(), bank, status, channel, 0, 0, 0);
            let b = vstd::utf8::encode_utf8(text);
            vstd::utf8::is_ascii_chars_encode_utf8(text);
            assert forall|i: int| 0 <= i < 12 implies #[trigger] text_field(b, i) < 0x80 && (i < text.len() ==> text_field(b, i)
                as u8 == text[i] as u8 && text_field(b, i) != 0) && (i >= text.len() ==> text_field(b, i) == 0) by {
                if i < text.len() {
                    assert(b[i] == text[i] as u8);
                    crate::sysex::lemma_low7(b[i]);
                }
            }
            lemma_text_word(text_field(b, 0), text_field(b, 1), text_field(b, 2), text_field(b, 3));
            lemma_text_word(text_field(b, 4), text_field(b, 5), text_field(b, 6), text_field(b, 7));
            lemma_text_word(text_field(b, 8), text_field(b, 9), text_field(b, 10), text_field(b, 11));
            let w1 = text_word(b, 0);
            let w2 = text_word(b, 4);
            let w3 = text_word(b, 8);
            let tb = text_bytes(w1, w2, w3);
            assert(tb =~= Seq::new(12, |i: int| text_field(b, i) as u8));
            crate::ump::lemma_first_zero(tb, 0, text.len() as int);
            assert forall|i: int| 0 <= i < text.len() implies (text[i] as u8) as char == text[i] by {
                assert((text[i] as u8) as u32 == text[i] as u32);
                vstd::utf8::char_u32_cast(text[i], (text[i] as u8) as u32);
            }
            assert(spec_decode_text(w1, w2, w3) =~= text);
        },
        FlexSpec::Other { group, format, bank, status, channel, data } => {
            lemma_data_format_roundtrip(format, 0);
            lemma_flex_words(group, format.spec_to_bits(), bank, status, channel, 0, 0, 0);
            assert(words =~= data);
            assert(seq![data[0], data[1], data[2], data[3]] =~= data);
        },
    }
}

/// An extended or unknown data message: its words hold its type (`0x5`,
/// `0xE` or `0xF`) and group, and its word count is the four words the
/// parser reports.
pub open spec fn data_message_in_range(group: u8, word_count: usize, words: Seq<u32>) -> bool {
    let t = (words[0] >> 28u32) as u8;
    &&& words.len() == 4
    &&& (t == 0x5 || t == 0xE || t == 0xF)
    &&& group == ((words[0] >> 24u32) & 0xF) as u8
    &&& word_count == 4
}

/// A message that survives packing into a UMP and parsing it back: its
/// group and data fit their bit widths, and it is one the parser reads
/// back as given (see the conditions of each kind).
pub open spec fn ump_roundtrips(m: Midi2Spec) -> bool {
    match m {
        Midi2Spec::Utility(_) => true,
        Midi2Spec::SystemCommon(s) => common_fields_in_range(s),
        Midi2Spec::SystemExclusive(s) => s.status <= 3 && s.group < 16 && s.data.len() <= 6 && crate::midi1::all_7bit(
            s.data,
            0,
            s.data.len() as int,
        ),
        Midi2Spec::Midi1ChannelVoice(cv) => cv.group < 16 && midi1_cv_in_range(cv.message),
        Midi2Spec::Midi2ChannelVoice(cv) => cv_wf(cv),
        Midi2Spec::DataMessage { group, word_count, words } => data_message_in_range(group, word_count, words),
        Midi2Spec::FlexData(f) => flex_fields_in_range(f),
    }
}

/// Packing a message into a UMP ([`Ump::from_message`]) and parsing the
/// packet ([`Ump::parse`]) gives the message back, for every message whose
/// fields fit their bit widths.
///
/// [`Ump::from_message`]: crate::ump::Ump::from_message
/// [`Ump::parse`]: crate::ump::Ump::parse
pub proof fn lemma_ump_roundtrip(m: Midi2Spec)
    requires
        ump_roundtrips(m),
    ensures
        spec_parse_ump(spec_encode_ump(m)) == Some(m),
{
    match m {
        Midi2Spec::Utility(u) => lemma_utility_roundtrip(u),
        Midi2Spec::SystemCommon(s) => lemma_common_roundtrip(s),
        Midi2Spec::SystemExclusive(s) => lemma_sysex7_roundtrip(s),
        Midi2Spec::Midi1ChannelVoice(cv) => lemma_midi1_cv_roundtrip(cv),
        Midi2Spec::Midi2ChannelVoice(cv) => lemma_cv_roundtrip(cv),
        Midi2Spec::DataMessage { group, word_count, words } => {
            let enc = spec_encode_ump(m);
            assert(enc =~= words);
        },
        Midi2Spec::FlexData(f) => lemma_flex_roundtrip(f),
    }
}

/// The group of a flex-data message.
pub open spec fn flex_group(f: FlexSpec) -> u8 {
    match f {
        FlexSpec::SetTempo { group, .. } => group,
        FlexSpec::TimeSignature { group, .. } => group,
        FlexSpec::Text { group, .. } => group,
        FlexSpec::Other { group, .. } => group,
    }
}

/// Every group field of the message fits in four bits.
pub open spec fn groups_in_range(m: Midi2Spec) -> bool {
    match m {
        Midi2Spec::Utility(_) => true,
        Midi2Spec::SystemCommon(s) => s.spec_group() < 16,
        Midi2Spec::Midi1ChannelVoice(cv) => cv.group < 16,
        Midi2Spec::SystemExclusive(s) => s.group < 16,
        Midi2Spec::Midi2ChannelVoice(cv) => cv.spec_group() < 16,
        Midi2Spec::DataMessage { group, .. } => group < 16,
        Midi2Spec::FlexData(f) => flex_group(f) < 16,
    }
}

/// How the message-type nibble of a word built by OR-ing fields comes out.
proof fn lemma_nibble_facts()
    by (bit_vector)
    ensures
        forall|a: u32, b: u32| #[trigger] ((a | b) >> 28u32) == ((a >> 28u32) | (b >> 28u32)),
        forall|x: u32| x < 0x1000_0000 ==> #[trigger] (x >> 28u32) == 0,
        forall|x: u32, s: u32| x < 0x100 && s <= 20 ==> #[trigger] (x << s) < 0x1000_0000,
        forall|x: u32, s: u32| x < 0x1_0000 && s <= 12 ==> #[trigger] (x << s) < 0x1000_0000,
        forall|x: u32| x < 0x10 ==> #[trigger] (x << 24u32) < 0x1000_0000,
        forall|x: u32| x < 0x4 ==> #[trigger] (x << 22u32) < 0x1000_0000,
        forall|x: u32| #[trigger] (x | 0u32) == x,
        forall|x: u32| #[trigger] (0u32 | x) == x,
        (0x1000_0000u32 >> 28u32) == 1,
        (0x2000_0000u32 >> 28u32) == 2,
        (0x3000_0000u32 >> 28u32) == 3,
        (0x4000_0000u32 >> 28u32) == 4,
        ((0xDu32 << 28u32) >> 28u32) == 0xD,
{
}

/// Packing a message other than an opaque data message into a UMP keeps
/// its message type: the packet's type nibble is the message's type, for
/// every message whose group fields fit in four bits (and, as for every
/// value of the type, whose opaque flex data holds four words).
pub proof fn lemma_encoded_type(m: Midi2Spec)
    requires
        !(m is DataMessage),
        groups_in_range(m),
        m matches Midi2Spec::FlexData(FlexSpec::Other { data, .. }) ==> data.len() == 4,
    ensures
        spec_type_of(spec_encode_ump(m)[0]) == spec_message_type(m),
{
    lemma_nibble_facts();
    let w = spec_encode_ump(m)[0];
    match m {
        Midi2Spec::Utility(u) => {
            assert(w >> 28u32 == 0);
        },
        Midi2Spec::SystemCommon(s) => {
            let b = crate::ump::spec_common_body(s);
            match s {
                SystemCommonMessage::TimeCodeQuarterFrame { .. } => assert(b >> 28u32 == 0),
                SystemCommonMessage::SongPositionPointer { .. } => assert(b >> 28u32 == 0),
                SystemCommonMessage::SongSelect { .. } => assert(b >> 28u32 == 0),
                _ => assert(b >> 28u32 == 0),
            }
            assert(w >> 28u32 == 1);
        },
        Midi2Spec::Midi1ChannelVoice(cv) => {
            let b = crate::ump::spec_midi1_body(cv.message);
            match cv.message {
                Midi1Spec::NoteOff { .. } => assert(b >> 28u32 == 0),
                Midi1Spec::NoteOn { .. } => assert(b >> 28u32 == 0),
                Midi1Spec::PolyphonicKeyPressure { .. } => assert(b >> 28u32 == 0),
                Midi1Spec::ControlChange { .. } => assert(b >> 28u32 == 0),
                Midi1Spec::ProgramChange { .. } => assert(b >> 28u32 == 0),
                Midi1Spec::ChannelPressure { .. } => assert(b >> 28u32 == 0),
                Midi1Spec::PitchBendChange { .. } => assert(b >> 28u32 == 0),
                _ => assert(b >> 28u32 == 0),
            }
            assert(w >> 28u32 == 2);
        },
        Midi2Spec::SystemExclusive(s) => {
            assert(w >> 28u32 == 3);
        },
        Midi2Spec::Midi2ChannelVoice(cv) => {
            assert(w >> 28u32 == 4);
        },
        Midi2Spec::FlexData(f) => {
            let (g, fmt, bank, status, channel): (u8, crate::messages::DataFormat, u8, u8, u8) = match f {
                FlexSpec::SetTempo { group, format, .. } => (group, format, 1u8, 0u8, 0u8),
                FlexSpec::TimeSignature { group, format, .. } => (group, format, 1u8, 1u8, 0u8),
                FlexSpec::Text { group, format, bank, status, channel, .. } => (group, format, bank, status, channel),
                FlexSpec::Other { group, format, bank, status, channel, .. } => (group, format, bank, status, channel),
            };
            assert(w == spec_flex_word0(g, fmt, bank, status, channel));
            assert(fmt.spec_to_bits() < 4);
            assert(spec_flex_word0(g, fmt, bank, status, channel) >> 28u32 == 0xD);
        },
        _ => {},
    }
    assert((w >> 28u32) as u8 == spec_message_type(m));
}

} // verus!
