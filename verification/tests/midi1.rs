use tpt_av_control::error::ControlError;
use tpt_av_control::midi1::{
    parse_midi1, parse_midi1_prefix, scale_16_to_32, scale_16_to_7, scale_32_to_16,
    scale_32_to_7, scale_7_to_16, scale_7_to_32, Midi1Message,
};

#[test]
fn parses_channel_messages() {
    let (m, n) = parse_midi1_prefix(&[0x90, 0x3C, 0x40]).unwrap();
    assert_eq!(m, Midi1Message::NoteOn { channel: 0, note: 60, velocity: 64 });
    assert_eq!(n, 3);

    let (m, _) = parse_midi1_prefix(&[0x8F, 0x3C, 0x7F]).unwrap();
    assert_eq!(m, Midi1Message::NoteOff { channel: 15, note: 60, velocity: 127 });

    let (m, _) = parse_midi1_prefix(&[0xB2, 0x07, 0x64]).unwrap();
    assert_eq!(m, Midi1Message::ControlChange { channel: 2, controller: 7, value: 100 });

    let (m, _) = parse_midi1_prefix(&[0xE0, 0x00, 0x40]).unwrap();
    assert_eq!(m, Midi1Message::PitchBendChange { channel: 0, value: 8192 });

    let (m, _) = parse_midi1_prefix(&[0xC5, 0x10]).unwrap();
    assert_eq!(m, Midi1Message::ProgramChange { channel: 5, program: 16 });
}

#[test]
fn parses_system_messages() {
    assert_eq!(parse_midi1(&[0xF8]).unwrap(), Midi1Message::TimingClock);
    assert_eq!(parse_midi1(&[0xFA]).unwrap(), Midi1Message::Start);
    assert_eq!(parse_midi1(&[0xF2, 0x00, 0x40]).unwrap(), Midi1Message::SongPositionPointer(8192));
    assert_eq!(parse_midi1(&[0xF1, 0x23]).unwrap(), Midi1Message::TimeCodeQuarterFrame(0x23));
}

#[test]
fn parses_sysex() {
    let m = parse_midi1(&[0xF0, 0x7E, 0x7F, 0x06, 0x01, 0xF7]).unwrap();
    match m {
        Midi1Message::SystemExclusive(bytes) => {
            assert_eq!(bytes, vec![0xF0, 0x7E, 0x7F, 0x06, 0x01, 0xF7]);
        }
        other => panic!("expected sysex, got {other:?}"),
    }
    // Missing terminator.
    assert!(parse_midi1(&[0xF0, 0x7E, 0x01]).is_err());
    // High bit in payload.
    assert!(parse_midi1(&[0xF0, 0x90, 0xF7]).is_err());
}

#[test]
fn rejects_malformed() {
    assert!(parse_midi1(&[]).is_err());
    assert!(parse_midi1(&[0x40]).is_err(), "data byte first");
    assert!(parse_midi1(&[0x90, 0x3C]).is_err(), "truncated");
    assert!(parse_midi1(&[0x90, 0x3C, 0xFF]).is_err(), "high data bit");
    assert!(parse_midi1(&[0xF4]).is_err(), "undefined status");
}

#[test]
fn encode_roundtrips() {
    let messages = vec![
        Midi1Message::NoteOn { channel: 3, note: 42, velocity: 100 },
        Midi1Message::NoteOff { channel: 9, note: 42, velocity: 0 },
        Midi1Message::ControlChange { channel: 0, controller: 74, value: 1 },
        Midi1Message::PitchBendChange { channel: 7, value: 12345 },
        Midi1Message::ProgramChange { channel: 15, program: 127 },
        Midi1Message::ChannelPressure { channel: 1, pressure: 55 },
        Midi1Message::PolyphonicKeyPressure { channel: 1, note: 9, pressure: 88 },
        Midi1Message::SongPositionPointer(16000),
        Midi1Message::SongSelect(3),
        Midi1Message::TimeCodeQuarterFrame(0x7F),
        Midi1Message::TimingClock,
        Midi1Message::SystemReset,
        Midi1Message::SystemExclusive(vec![0xF0, 0x7D, 1, 2, 3, 0xF7]),
    ];
    for m in messages {
        let bytes = m.to_bytes();
        let (back, n) = parse_midi1_prefix(&bytes).unwrap();
        assert_eq!(back, m, "roundtrip {m:?}");
        assert_eq!(n, bytes.len());
    }
}

#[test]
fn write_bytes_into_small_buffer() {
    let m = Midi1Message::NoteOn { channel: 0, note: 60, velocity: 64 };
    let mut buf = [0u8; 2];
    assert!(matches!(
        m.write_bytes(&mut buf),
        Err(ControlError::BufferTooSmall { needed: 3, available: 2 })
    ));
    let mut buf = [0u8; 3];
    assert_eq!(m.write_bytes(&mut buf).unwrap(), 3);
}

#[test]
fn scaling_formulas() {
    assert_eq!(scale_7_to_16(0), 0);
    assert_eq!(scale_7_to_16(0x7F), 0xFFFF);
    assert_eq!(scale_16_to_7(0xFFFF), 0x7F);
    assert_eq!(scale_7_to_32(0x7F), 0xFFFF_FFFF);
    assert_eq!(scale_32_to_7(0xFFFF_FFFF), 0x7F);
    assert_eq!(scale_16_to_32(0xFFFF), 0xFFFF_FFFF);
    assert_eq!(scale_32_to_16(0xFFFF_FFFF), 0xFFFF);
    // Roundtrips are stable for extremes and midpoints.
    for v in [0u8, 1, 0x40, 0x7E, 0x7F] {
        let wide = scale_7_to_16(v);
        assert_eq!(scale_16_to_7(wide), v, "7->16->7 for {v}");
        let wide32 = scale_7_to_32(v);
        assert_eq!(scale_32_to_7(wide32), v, "7->32->7 for {v}");
    }
}

#[test]
fn parse_midi1_is_allocation_free() {
    // Heap use is not counted here; the parse result is.
    let note_on: &[u8] = &[0x90, 0x3C, 0x40];
    let parsed = parse_midi1(note_on).expect("valid MIDI 1.0 message must parse");
    assert_eq!(parsed, Midi1Message::NoteOn { channel: 0, note: 60, velocity: 64 });
}

#[test]
fn prefix_parse_ignores_trailing_bytes() {
    let messages = vec![
        Midi1Message::NoteOn { channel: 3, note: 60, velocity: 100 },
        Midi1Message::ProgramChange { channel: 1, program: 7 },
        Midi1Message::TimingClock,
        Midi1Message::SystemExclusive(vec![0xF0, 0x7E, 0x01, 0xF7]),
    ];
    for m in messages {
        let mut bytes = m.to_bytes();
        let n = bytes.len();
        assert_eq!(n, m.encoded_len());
        bytes.extend_from_slice(&[0xF7, 0x90, 0x00]);
        assert_eq!(parse_midi1_prefix(&bytes).unwrap(), (m, n));
    }
}
