use tpt_av_control::midi1::parse_midi1;
use tpt_av_control::msc::{
    MscCommand, MscMessage, FORMAT_GENERAL, FORMAT_LIGHTING, FORMAT_SOUND, FORMAT_VIDEO,
};

fn roundtrip(message: MscMessage) {
    let encoded = message.to_midi1().unwrap();
    let parsed = parse_midi1(&encoded.to_bytes()).unwrap();
    let back = MscMessage::from_midi1(&parsed).unwrap();
    assert_eq!(back, message);
}

#[test]
fn go_without_cue() {
    roundtrip(MscMessage {
        device_id: 0x7F,
        command_format: FORMAT_LIGHTING,
        command: MscCommand::Go { cue: None, cue_list: None },
    });
}

#[test]
fn go_with_cue_and_list() {
    roundtrip(MscMessage {
        device_id: 0x01,
        command_format: FORMAT_SOUND,
        command: MscCommand::Go { cue: Some("12.5".into()), cue_list: Some("3".into()) },
    });
}

#[test]
fn stop_fire_reset_jam() {
    roundtrip(MscMessage {
        device_id: 0x00,
        command_format: FORMAT_GENERAL,
        command: MscCommand::Stop { cue: Some("42".into()) },
    });
    roundtrip(MscMessage {
        device_id: 0x00,
        command_format: FORMAT_GENERAL,
        command: MscCommand::Fire { macro_number: 7 },
    });
    roundtrip(MscMessage { device_id: 0x00, command_format: FORMAT_GENERAL, command: MscCommand::Reset });
    roundtrip(MscMessage {
        device_id: 0x00,
        command_format: FORMAT_VIDEO,
        command: MscCommand::GoJam { cue: Some("99".into()) },
    });
    roundtrip(MscMessage {
        device_id: 0x00,
        command_format: FORMAT_VIDEO,
        command: MscCommand::GoOff { cue: Some("5".into()), cue_list: Some("1".into()) },
    });
}

#[test]
fn rejects_illegal_cue_characters() {
    let message = MscMessage {
        device_id: 0,
        command_format: 0,
        command: MscCommand::Stop { cue: Some("bad\u{7F}".into()) },
    };
    assert!(message.to_midi1().is_err());
}

#[test]
fn rejects_non_msc() {
    let other = tpt_av_control::sysex::identity_request(0x7F);
    assert!(MscMessage::from_midi1(&other).is_err());
}

#[test]
fn go_encodes_cue_fields_exactly() {
    let message = MscMessage {
        device_id: 0x01,
        command_format: FORMAT_SOUND,
        command: MscCommand::Go { cue: Some("1".into()), cue_list: Some("2".into()) },
    };
    let encoded = message.to_midi1().unwrap();
    assert_eq!(
        encoded.to_bytes(),
        vec![0xF0, 0x7F, 0x01, 0x02, 0x01, FORMAT_SOUND, b'G', b'1', 0x00, b'2', 0xF7]
    );
}

#[test]
fn fire_macro_number_is_masked_to_seven_bits() {
    let message = MscMessage {
        device_id: 0,
        command_format: FORMAT_GENERAL,
        command: MscCommand::Fire { macro_number: 0x85 },
    };
    let encoded = message.to_midi1().unwrap();
    assert_eq!(encoded.to_bytes(), vec![0xF0, 0x7F, 0x00, 0x02, 0x01, FORMAT_GENERAL, b'F', 0x05, 0xF7]);
}

#[test]
fn go_cue_starting_with_plus_reads_as_go_off() {
    let message = MscMessage {
        device_id: 1,
        command_format: FORMAT_LIGHTING,
        command: MscCommand::Go { cue: Some("+5".into()), cue_list: None },
    };
    let back = MscMessage::from_midi1(&message.to_midi1().unwrap()).unwrap();
    assert_eq!(back.command, MscCommand::GoOff { cue: Some("5".into()), cue_list: None });
}

#[test]
fn go_with_list_but_no_cue_roundtrips() {
    roundtrip(MscMessage {
        device_id: 0x10,
        command_format: FORMAT_LIGHTING,
        command: MscCommand::Go { cue: None, cue_list: Some("7".into()) },
    });
}
