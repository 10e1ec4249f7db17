use tpt_av_control::messages::{
    DataFormat, DataMessage, FlexDataMessage, Midi1ChannelVoice, Midi2ChannelVoice, Midi2Message,
    SysExMessage, SystemCommonMessage, UtilityMessage,
};
use tpt_av_control::midi1::Midi1Message;
use tpt_av_control::ump::{message_to_umps, midi1_to_midi2, midi2_to_midi1, SysexReassembler, Ump};

#[test]
fn midi2_note_on_layout() {
    let ump = Ump::from_message(&Midi2Message::Midi2ChannelVoice(Midi2ChannelVoice::NoteOn {
        group: 0,
        channel: 3,
        note: 60,
        attribute_type: 0,
        attribute: 0,
        velocity: 0x8000,
    }));
    assert_eq!(ump.words[0], 0x4093_3C00);
    assert_eq!(ump.words[1], 0x8000_0000);
    assert_eq!(ump.num_words(), 2);
    match ump.parse().unwrap() {
        Midi2Message::Midi2ChannelVoice(Midi2ChannelVoice::NoteOn { channel, note, velocity, .. }) => {
            assert_eq!(channel, 3);
            assert_eq!(note, 60);
            assert_eq!(velocity, 0x8000);
        }
        other => panic!("unexpected {other:?}"),
    }
}

#[test]
fn midi2_cc_layout() {
    let ump = Ump::from_message(&Midi2Message::Midi2ChannelVoice(Midi2ChannelVoice::ControlChange {
        group: 2,
        channel: 7,
        index: 74,
        value: 0xFFFF_FFFF,
    }));
    assert_eq!(ump.words[0], 0x42B7_4A00);
    assert_eq!(ump.words[1], 0xFFFF_FFFF);
}

#[test]
fn midi2_rpn_layout() {
    let ump = Ump::from_message(&Midi2Message::Midi2ChannelVoice(Midi2ChannelVoice::Rpn {
        group: 0,
        channel: 0,
        bank: 0,
        index: 0,
        value: 0x2000_0000,
    }));
    assert_eq!(ump.words[0], 0x4020_0000);
    assert_eq!(ump.words[1], 0x2000_0000);
    match ump.parse().unwrap() {
        Midi2Message::Midi2ChannelVoice(Midi2ChannelVoice::Rpn { bank, index, value, .. }) => {
            assert_eq!((bank, index, value), (0, 0, 0x2000_0000));
        }
        other => panic!("unexpected {other:?}"),
    }
}

#[test]
fn midi2_program_change_bank() {
    let ump = Ump::from_message(&Midi2Message::Midi2ChannelVoice(Midi2ChannelVoice::ProgramChange {
        group: 0,
        channel: 1,
        option_flags: 0,
        program: 42,
        bank_valid: true,
        bank_msb: 3,
        bank_lsb: 7,
    }));
    assert_eq!(ump.words[0], 0x40C1_8000);
    assert_eq!(ump.words[1], 0x2A00_0307);
    match ump.parse().unwrap() {
        Midi2Message::Midi2ChannelVoice(Midi2ChannelVoice::ProgramChange {
            program,
            bank_valid,
            bank_msb,
            bank_lsb,
            ..
        }) => {
            assert_eq!(program, 42);
            assert!(bank_valid);
            assert_eq!((bank_msb, bank_lsb), (3, 7));
        }
        other => panic!("unexpected {other:?}"),
    }
}

#[test]
fn midi1_cv_in_ump() {
    let ump = Ump::from_message(&Midi2Message::Midi1ChannelVoice(Midi1ChannelVoice {
        group: 0,
        message: Midi1Message::NoteOn { channel: 5, note: 64, velocity: 100 },
    }));
    assert_eq!(ump.words[0], 0x2095_4064);
    assert_eq!(ump.num_words(), 1);
    match ump.parse().unwrap() {
        Midi2Message::Midi1ChannelVoice(cv) => {
            assert_eq!(cv.message, Midi1Message::NoteOn { channel: 5, note: 64, velocity: 100 });
        }
        other => panic!("unexpected {other:?}"),
    }
}

#[test]
fn sysex7_single_and_chunked() {
    let ump = Ump::from_message(&Midi2Message::SystemExclusive(SysExMessage::Complete {
        group: 0,
        data: vec![0x7E, 0x7F, 0x06, 0x01],
    }));
    assert_eq!(ump.num_words(), 2);
    assert_eq!(ump.words[0], 0x3004_7E7F);
    assert_eq!(ump.words[1], 0x0601_0000);
    match ump.parse().unwrap() {
        Midi2Message::SystemExclusive(s) => assert_eq!(s.data(), &[0x7E, 0x7F, 0x06, 0x01]),
        other => panic!("unexpected {other:?}"),
    }

    let payload: Vec<u8> = (0..14).collect();
    let umps = message_to_umps(&Midi2Message::SystemExclusive(SysExMessage::Start {
        group: 0,
        data: payload.clone(),
    }));
    assert_eq!(umps.len(), 3);
    assert_eq!(umps[0].words[0] >> 20 & 0xF, 0x1, "start");
    assert_eq!(umps[1].words[0] >> 20 & 0xF, 0x2, "continue");
    assert_eq!(umps[2].words[0] >> 20 & 0xF, 0x3, "end");

    let mut assembler = SysexReassembler::default();
    for ump in &umps {
        if let Midi2Message::SystemExclusive(s) = ump.parse().unwrap() {
            if let Some(all) = assembler.feed(&s).unwrap() {
                assert_eq!(all, payload);
                return;
            }
        }
    }
    panic!("never reassembled");
}

#[test]
fn system_common_in_ump() {
    let ump = Ump::from_message(&Midi2Message::SystemCommon(
        SystemCommonMessage::SongPositionPointer { group: 0, position: 100 },
    ));
    assert_eq!(ump.words[0], 0x10F2_6400);
}

#[test]
fn utility_roundtrip() {
    let ump = Ump::from_message(&Midi2Message::Utility(UtilityMessage::Clock { clock: 0xBEEF }));
    assert_eq!(ump.words[0], 0x0010_BEEF);
    match ump.parse().unwrap() {
        Midi2Message::Utility(UtilityMessage::Clock { clock }) => assert_eq!(clock, 0xBEEF),
        other => panic!("unexpected {other:?}"),
    }
}

#[test]
fn flex_set_tempo_roundtrip() {
    let message = Midi2Message::FlexData(FlexDataMessage::SetTempo {
        group: 7,
        format: DataFormat::Complete,
        ten_nanosecond_units_per_quarter_note: 500_000,
    });
    let ump = Ump::from_message(&message);
    assert_eq!(ump.words[0], 0xD710_0000);
    assert_eq!(ump.words[1], 500_000);
    match ump.parse().unwrap() {
        Midi2Message::FlexData(FlexDataMessage::SetTempo {
            group,
            ten_nanosecond_units_per_quarter_note: tempo,
            ..
        }) => {
            assert_eq!(group, 7);
            assert_eq!(tempo, 500_000);
        }
        other => panic!("unexpected {other:?}"),
    }
}

#[test]
fn flex_time_signature_layout() {
    let message = Midi2Message::FlexData(FlexDataMessage::TimeSignature {
        group: 0xA,
        format: DataFormat::Complete,
        numerator: 4,
        denominator_exponent: 2,
        thirty_second_notes_per_quarter: 8,
    });
    let ump = Ump::from_message(&message);
    assert_eq!(ump.words[0], 0xDA10_0001);
    assert_eq!(ump.words[1], 0x0402_0800);
}

#[test]
fn from_bytes_roundtrip() {
    let ump = Ump::from_message(&Midi2Message::Midi2ChannelVoice(Midi2ChannelVoice::PitchBend {
        group: 1,
        channel: 2,
        value: 0xC000_0000,
    }));
    let bytes = ump.to_bytes();
    assert_eq!(bytes.len(), 8);
    assert_eq!(Ump::from_bytes(&bytes).unwrap(), ump);
    assert!(Ump::from_bytes(&[0u8; 3]).is_err());
    assert!(Ump::from_bytes(&[0u8; 20]).is_err());
}

#[test]
fn translation_up_and_down() {
    let m1 = Midi1Message::NoteOn { channel: 0, note: 60, velocity: 64 };
    let up = midi1_to_midi2(&m1, 0);
    assert_eq!(up.len(), 1);
    let down = midi2_to_midi1(&up[0]);
    assert_eq!(down.len(), 1);
    assert_eq!(down[0], m1);

    let m1 = Midi1Message::NoteOn { channel: 2, note: 40, velocity: 0 };
    let up = midi1_to_midi2(&m1, 0);
    match up[0] {
        Midi2Message::Midi2ChannelVoice(Midi2ChannelVoice::NoteOff { .. }) => {}
        ref other => panic!("expected note off, got {other:?}"),
    }

    let cc = Midi2ChannelVoice::ControlChange { group: 0, channel: 0, index: 7, value: 0xFFFF_FFFF };
    let down = midi2_to_midi1(&Midi2Message::Midi2ChannelVoice(cc));
    assert_eq!(down[0], Midi1Message::ControlChange { channel: 0, controller: 7, value: 127 });

    let pb = Midi2Message::Midi2ChannelVoice(Midi2ChannelVoice::PitchBend {
        group: 0,
        channel: 0,
        value: 0x8000_0000,
    });
    let down = midi2_to_midi1(&pb);
    assert_eq!(down[0], Midi1Message::PitchBendChange { channel: 0, value: 8192 });
}

#[test]
fn words_beyond_packet_rejected() {
    let mut ump = Ump::from_message(&Midi2Message::Utility(UtilityMessage::NoOp));
    ump.words[1] = 0xDEAD_BEEF;
    assert!(ump.parse().is_err());
}

#[test]
fn ump_group_and_type_accessors() {
    let ump = Ump::from_words(&[0x4593_3C00, 0x8000_0000]);
    assert_eq!(ump.message_type(), 4);
    assert_eq!(ump.group(), 5);
    assert_eq!(ump.words[2], 0);
}

#[test]
fn reassembler_rejects_continue_without_start() {
    let mut assembler = SysexReassembler::default();
    assert!(assembler.feed(&SysExMessage::Continue { group: 0, data: vec![1, 2] }).is_err());
    let done = assembler.feed(&SysExMessage::Complete { group: 0, data: vec![9] }).unwrap();
    assert_eq!(done, Some(vec![9]));
}

#[test]
fn reassembly_caps_at_1024_chunks() {
    let fits: Vec<u8> = (0..6144u32).map(|i| (i % 128) as u8).collect();
    let over: Vec<u8> = (0..6150u32).map(|i| (i % 128) as u8).collect();
    for (payload, ok) in [(fits, true), (over, false)] {
        let umps = message_to_umps(&Midi2Message::SystemExclusive(SysExMessage::Complete {
            group: 2,
            data: payload.clone(),
        }));
        let mut assembler = SysexReassembler::default();
        let mut last = None;
        for ump in &umps {
            match ump.parse().unwrap() {
                Midi2Message::SystemExclusive(s) => last = Some(assembler.feed(&s)),
                other => panic!("unexpected {other:?}"),
            }
        }
        match last.unwrap() {
            Ok(Some(all)) => {
                assert!(ok);
                assert_eq!(all, payload);
            }
            Err(_) => assert!(!ok),
            Ok(None) => panic!("stream never ended"),
        }
    }
}

#[test]
fn every_kind_of_message_survives_a_packet() {
    let messages = vec![
        Midi2Message::Utility(UtilityMessage::Timestamp { timestamp: 0x1234 }),
        Midi2Message::SystemCommon(SystemCommonMessage::SongPositionPointer { group: 15, position: 0x3FFF }),
        Midi2Message::SystemCommon(SystemCommonMessage::TimeCodeQuarterFrame { group: 1, quarter_frame: 0x7F }),
        Midi2Message::SystemCommon(SystemCommonMessage::ActiveSensing { group: 3 }),
        Midi2Message::Midi1ChannelVoice(Midi1ChannelVoice {
            group: 9,
            message: Midi1Message::PitchBendChange { channel: 15, value: 0x2ABC },
        }),
        Midi2Message::Midi1ChannelVoice(Midi1ChannelVoice {
            group: 0,
            message: Midi1Message::ProgramChange { channel: 4, program: 99 },
        }),
        Midi2Message::SystemExclusive(SysExMessage::End { group: 2, data: vec![1, 2, 3] }),
        Midi2Message::DataMessage(DataMessage {
            group: 4,
            word_count: 4,
            words: [0x5401_0203, 0x0405_0607, 0x0809_0A0B, 0x0C0D_0E0F],
        }),
        Midi2Message::FlexData(FlexDataMessage::Text {
            group: 1,
            format: DataFormat::Start,
            bank: 1,
            status: 5,
            channel: 3,
            text: "Song".to_string(),
        }),
        Midi2Message::FlexData(FlexDataMessage::TimeSignature {
            group: 0,
            format: DataFormat::End,
            numerator: 7,
            denominator_exponent: 3,
            thirty_second_notes_per_quarter: 8,
        }),
    ];
    for m in messages {
        let ump = Ump::from_message(&m);
        assert_eq!(ump.parse().unwrap(), m, "{m:?}");
    }
}

#[test]
fn unknown_flex_data_is_preserved() {
    let header = 0xD000_0000u32 | (2 << 24) | (1 << 22) | (3 << 20) | (5 << 8) | 0x20;
    let m = Midi2Message::FlexData(FlexDataMessage::Other {
        group: 2,
        format: DataFormat::Start,
        bank: 3,
        status: 0x20,
        channel: 5,
        data: [header, 0xCAFE_F00D, 0x1234_5678, 0x9ABC_DEF0],
    });
    let ump = Ump::from_message(&m);
    assert_eq!(ump.words, [header, 0xCAFE_F00D, 0x1234_5678, 0x9ABC_DEF0]);
    assert_eq!(ump.parse().unwrap(), m);
}

#[test]
fn flex_text_fills_three_words() {
    let m = Midi2Message::FlexData(FlexDataMessage::Text {
        group: 0,
        format: DataFormat::Complete,
        bank: 0,
        status: 4,
        channel: 0,
        text: "Hello, world".to_string(),
    });
    let ump = Ump::from_message(&m);
    assert_eq!(ump.num_words(), 4);
    assert_eq!(ump.words[1], u32::from_be_bytes(*b"Hell"));
    assert_eq!(ump.words[3], u32::from_be_bytes(*b"orld"));
    assert_eq!(ump.parse().unwrap(), m);
    assert_eq!(Ump::from_bytes(&ump.to_bytes()).unwrap(), ump);
}

#[test]
fn type_f_data_keeps_four_words() {
    let words = [0xF300_0001u32, 0x0203_0405, 0x0607_0809, 0x0A0B_0C0D];
    let ump = Ump::from_words(&words);
    assert_eq!(ump.num_words(), 4);
    let m = ump.parse().unwrap();
    assert_eq!(m, Midi2Message::DataMessage(DataMessage { group: 3, word_count: 4, words }));
    assert_eq!(Ump::from_message(&m), ump);
}

#[test]
fn ump_from_bytes_is_allocation_free() {
    // Heap use is not counted here; the parse result is.
    let no_op: &[u8] = &[0x00, 0x00, 0x00, 0x00];
    let parsed = Ump::from_bytes(no_op).expect("valid UMP word must parse");
    assert_eq!(parsed.message_type(), 0);
}

#[test]
fn pitch_bend_upscales_min_centre_max() {
    let up = |value: u16| match midi1_to_midi2(&Midi1Message::PitchBendChange { channel: 5, value }, 1)[0] {
        Midi2Message::Midi2ChannelVoice(Midi2ChannelVoice::PitchBend { group, channel, value }) => {
            assert_eq!((group, channel), (1, 5));
            value
        }
        ref other => panic!("unexpected {other:?}"),
    };
    assert_eq!(up(0), 0);
    assert_eq!(up(0x2000), 0x8000_0000);
    assert_eq!(up(0x3FFF), 0xFFFF_FFFF);
    for v in [0u16, 1, 0x1FFF, 0x2000, 0x2001, 0x3000, 0x3FFE, 0x3FFF] {
        let down = midi2_to_midi1(&Midi2Message::Midi2ChannelVoice(Midi2ChannelVoice::PitchBend {
            group: 0,
            channel: 0,
            value: up(v),
        }));
        assert_eq!(down[0], Midi1Message::PitchBendChange { channel: 0, value: v });
    }
}

#[test]
fn reassembles_streams_of_any_chunk_sizes() {
    let pieces: Vec<Vec<u8>> = vec![vec![1], vec![], vec![2, 3, 4, 5, 6, 7, 8, 9], vec![10, 11]];
    let mut assembler = SysexReassembler::default();
    assert_eq!(assembler.feed(&SysExMessage::Start { group: 5, data: pieces[0].clone() }).unwrap(), None);
    assert_eq!(assembler.feed(&SysExMessage::Continue { group: 5, data: pieces[1].clone() }).unwrap(), None);
    assert_eq!(assembler.feed(&SysExMessage::Continue { group: 5, data: pieces[2].clone() }).unwrap(), None);
    let done = assembler.feed(&SysExMessage::End { group: 5, data: pieces[3].clone() }).unwrap();
    assert_eq!(done, Some(pieces.concat()));
    // An end chunk from another group is refused.
    assembler.feed(&SysExMessage::Start { group: 1, data: vec![1] }).unwrap();
    assert!(assembler.feed(&SysExMessage::End { group: 2, data: vec![2] }).is_err());
}

#[test]
fn packing_keeps_the_message_type() {
    let messages = vec![
        Midi2Message::Utility(UtilityMessage::Clock { clock: 0xFFFF }),
        Midi2Message::SystemCommon(SystemCommonMessage::SongPositionPointer { group: 15, position: 0xFFFF }),
        Midi2Message::Midi1ChannelVoice(Midi1ChannelVoice {
            group: 15,
            message: Midi1Message::PitchBendChange { channel: 15, value: 0xFFFF },
        }),
        Midi2Message::SystemExclusive(SysExMessage::End { group: 15, data: vec![0xFF; 9] }),
        Midi2Message::Midi2ChannelVoice(Midi2ChannelVoice::NoteOn {
            group: 15,
            channel: 0xFF,
            note: 0xFF,
            attribute_type: 0xFF,
            attribute: 0xFFFF,
            velocity: 0xFFFF,
        }),
        Midi2Message::FlexData(FlexDataMessage::SetTempo {
            group: 15,
            format: DataFormat::End,
            ten_nanosecond_units_per_quarter_note: u32::MAX,
        }),
    ];
    for m in messages {
        assert_eq!(Ump::from_message(&m).message_type(), m.message_type(), "{m:?}");
    }
}
