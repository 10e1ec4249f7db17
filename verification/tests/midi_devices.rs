use tpt_av_control::clock::{song_position, TransportState, TransportTracker, TICKS_PER_QUARTER_NOTE};
use tpt_av_control::device::{group_devices, InboundMidi};
use tpt_av_control::midi1::Midi1Message;
use tpt_av_control::port::{MidiPort, PortDirection, PortId};
use tpt_av_control::ump::Ump;

#[test]
fn virtual_loopback() {
    let got = InboundMidi::from_message(&Midi1Message::NoteOn { channel: 0, note: 60, velocity: 100 });
    assert_eq!(got.message, Some(Midi1Message::NoteOn { channel: 0, note: 60, velocity: 100 }));
    assert_eq!(got.raw, vec![0x90, 0x3C, 0x64]);
}

#[test]
fn virtual_ump_loopback() {
    let got = InboundMidi::from_ump(&Ump::from_words(&[0x4090_3C00, 0x8000_0000]));
    assert!(got.message.is_none());
    assert_eq!(got.raw, vec![0x40, 0x90, 0x3C, 0x00, 0x80, 0x00, 0x00, 0x00]);
}

#[test]
fn inbound_raw_bytes_parse_when_valid() {
    let ok = InboundMidi::from_raw(17, &[0xB0, 0x07, 0x7F]);
    assert_eq!(ok.timestamp_us, 17);
    assert_eq!(ok.message, Some(Midi1Message::ControlChange { channel: 0, controller: 7, value: 127 }));
    let bad = InboundMidi::from_raw(18, &[0x40]);
    assert_eq!(bad.message, None);
    assert_eq!(bad.raw, vec![0x40]);
}

#[test]
fn devices_group_by_port_name() {
    let inputs = vec!["Synth".to_string(), "Pad".to_string()];
    let outputs = vec!["Synth".to_string(), "Out Only".to_string()];
    let devices = group_devices(&inputs, &outputs);
    assert_eq!(devices.len(), 3);
    assert_eq!(devices[0].name, "Synth");
    assert_eq!(devices[0].inputs, vec![MidiPort::new(PortId::new(0), "Synth", PortDirection::Input)]);
    assert_eq!(devices[0].outputs, vec![MidiPort::new(PortId::new(2), "Synth", PortDirection::Output)]);
    assert_eq!(devices[1].name, "Pad");
    assert!(devices[1].outputs.is_empty());
    assert_eq!(devices[2].name, "Out Only");
    assert!(devices[2].inputs.is_empty());
    assert_eq!(devices[2].outputs[0].id, PortId::new(3));
}

#[test]
fn receiver_tracks_state_and_tempo() {
    let mut rx = TransportTracker::new();
    assert_eq!(rx.state, TransportState::Unknown);
    rx.observe(&Midi1Message::Start);
    assert_eq!(rx.state, TransportState::Playing);
    assert!(rx.observe(&Midi1Message::TimingClock));
    assert!(rx.observe(&Midi1Message::TimingClock));
    assert_eq!(rx.ticks_seen, 2);
    assert!(!rx.observe(&Midi1Message::Stop));
    assert_eq!(rx.state, TransportState::Stopped);
    rx.observe(&Midi1Message::Continue);
    assert_eq!(rx.state, TransportState::Continuing);
    assert_eq!(TICKS_PER_QUARTER_NOTE, 24);
}

#[test]
fn song_position_is_capped() {
    assert_eq!(song_position(0), Midi1Message::SongPositionPointer(0));
    assert_eq!(song_position(100), Midi1Message::SongPositionPointer(100));
    assert_eq!(song_position(0xFFFF), Midi1Message::SongPositionPointer(0x3FFF));
}
