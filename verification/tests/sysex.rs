use tpt_av_control::midi1::{parse_midi1, Midi1Message};
use tpt_av_control::sysex::{
    chunk_sysex, gm_system_off, gm_system_on, identity_request, parse_sysex, sysex_universal,
    validate_7bit, MIDI_TIME_CODE, UNIVERSAL_NON_REALTIME, UNIVERSAL_REALTIME,
};

#[test]
fn identity_request_encoding() {
    let msg = identity_request(0x7F);
    match msg {
        Midi1Message::SystemExclusive(bytes) => {
            assert_eq!(bytes, vec![0xF0, 0x7E, 0x7F, 0x06, 0x01, 0xF7]);
        }
        other => panic!("expected sysex: {other:?}"),
    }
}

#[test]
fn universal_view() {
    let msg = sysex_universal(UNIVERSAL_REALTIME, 0x10, MIDI_TIME_CODE, 0x01, &[3]);
    let view = parse_sysex(&msg).unwrap();
    assert!(view.universal);
    assert_eq!(view.device_id, Some(0x10));
    assert_eq!(view.sub_id1, Some(MIDI_TIME_CODE));
    assert_eq!(view.sub_id2, Some(0x01));
    assert_eq!(view.payload, &[3]);
}

#[test]
fn non_universal_view() {
    let raw = [0xF0, 0x41, 0x10, 0xF7];
    let msg = parse_midi1(&raw).unwrap();
    let view = parse_sysex(&msg).unwrap();
    assert!(!view.universal);
    assert_eq!(view.device_id, None);
    assert_eq!(view.payload, &[0x10]);
}

#[test]
fn chunking() {
    let chunks = chunk_sysex(&[1, 2, 3, 4, 5], 2);
    assert_eq!(chunks.len(), 3);
    for chunk in &chunks {
        assert!(parse_sysex(chunk).is_ok());
    }
}

#[test]
fn rejects_bad_sysex() {
    assert!(parse_sysex(&Midi1Message::TimingClock).is_err());
    let bad = Midi1Message::SystemExclusive(vec![0xF0, 0x01]);
    assert!(parse_sysex(&bad).is_err());
}

#[test]
fn gm_system_messages_encode() {
    assert_eq!(
        gm_system_on(0x7F),
        Midi1Message::SystemExclusive(vec![0xF0, UNIVERSAL_NON_REALTIME, 0x7F, 0x09, 0x01, 0xF7])
    );
    assert_eq!(
        gm_system_off(0x10),
        Midi1Message::SystemExclusive(vec![0xF0, UNIVERSAL_NON_REALTIME, 0x10, 0x09, 0x02, 0xF7])
    );
}

#[test]
fn chunk_contents_are_framed_in_order() {
    let chunks = chunk_sysex(&[1, 2, 3, 4, 5], 2);
    assert_eq!(chunks[0], Midi1Message::SystemExclusive(vec![0xF0, 1, 2, 0xF7]));
    assert_eq!(chunks[1], Midi1Message::SystemExclusive(vec![0xF0, 3, 4, 0xF7]));
    assert_eq!(chunks[2], Midi1Message::SystemExclusive(vec![0xF0, 5, 0xF7]));
}

#[test]
fn validate_7bit_finds_high_bytes() {
    assert!(validate_7bit(&[0, 1, 0x7F]).is_ok());
    assert!(validate_7bit(&[0, 0x80]).is_err());
    assert!(validate_7bit(&[]).is_ok());
}
