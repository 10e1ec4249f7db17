use tpt_av_control::midi1::{parse_midi1, Midi1Message};
use tpt_av_control::mtc::{full_frame_sysex, parse_full_frame_sysex, quarter_frames, MtcDecoder, MtcFrameRate};
use tpt_av_control::timecode::{FrameRate, Timecode};

#[test]
fn quarter_frames_roundtrip() {
    let tc = Timecode::new(3, 24, 51, 17, FrameRate::Fps25).unwrap();
    let pieces = quarter_frames(&tc);
    assert_eq!(pieces.len(), 8);

    let mut decoder = MtcDecoder::new();
    for piece in &pieces {
        decoder.feed(piece);
    }
    assert_eq!(decoder.timecode, Some(tc));
}

#[test]
fn rate_bits_survive() {
    for rate in FrameRate::ALL {
        let tc = Timecode::new(0x11, 0x22, 0x33, rate.fps() - 1, rate).unwrap();
        let pieces = quarter_frames(&tc);
        let mut decoder = MtcDecoder::new();
        for piece in pieces.iter() {
            decoder.feed(piece);
        }
        assert_eq!(decoder.timecode, Some(tc), "rate {rate:?}");
    }
}

#[test]
fn decoder_restarts_after_complete() {
    let mut decoder = MtcDecoder::new();
    for piece in quarter_frames(&Timecode::new(0, 0, 0, 0, FrameRate::Fps24).unwrap()).iter() {
        decoder.feed(piece);
    }
    assert!(decoder.timecode.is_some());
    assert!(decoder.is_idle(), "nibble buffer resets for the next frame");
}

#[test]
fn full_frame_sysex_roundtrip() {
    let tc = Timecode::new(12, 34, 56, 23, FrameRate::Fps2997Df).unwrap();
    let message = full_frame_sysex(&tc, 0x7F);
    match &message {
        Midi1Message::SystemExclusive(bytes) => {
            assert_eq!(bytes, &vec![0xF0, 0x7F, 0x7F, 0x04, 0x01, (2 << 5) | 12, 34, 56, 23, 0xF7]);
        }
        other => panic!("expected sysex, got {other:?}"),
    }
    let parsed = parse_midi1(&message.to_bytes()).unwrap();
    assert_eq!(parse_full_frame_sysex(&parsed), Some(tc));
}

#[test]
fn quarter_frame_pieces_carry_nibbles() {
    let tc = Timecode::new(0x17, 0x3B, 0x2A, 0x1D, FrameRate::Fps30Ndf).unwrap();
    let pieces = quarter_frames(&tc);
    let expected: [u8; 8] = [0x0D, 0x11, 0x2A, 0x32, 0x4B, 0x53, 0x67, 0x77];
    for (piece, want) in pieces.iter().zip(expected.iter()) {
        assert_eq!(piece, &Midi1Message::TimeCodeQuarterFrame(*want));
    }
}

#[test]
fn frame_rate_bits_map_both_ways() {
    assert_eq!(MtcFrameRate::from_bits(0).frame_rate(), FrameRate::Fps24);
    assert_eq!(MtcFrameRate::from_bits(1).frame_rate(), FrameRate::Fps25);
    assert_eq!(MtcFrameRate::from_bits(2).frame_rate(), FrameRate::Fps2997Df);
    assert_eq!(MtcFrameRate::from_bits(3).frame_rate(), FrameRate::Fps30Ndf);
    assert_eq!(MtcFrameRate::from_bits(6).to_bits(), 2);
}

#[test]
fn timecode_validation() {
    assert!(Timecode::new(24, 0, 0, 0, FrameRate::Fps25).is_none());
    assert!(Timecode::new(0, 60, 0, 0, FrameRate::Fps25).is_none());
    assert!(Timecode::new(0, 0, 60, 0, FrameRate::Fps25).is_none());
    assert!(Timecode::new(0, 0, 0, 25, FrameRate::Fps25).is_none());
    assert!(Timecode::new(23, 59, 59, 29, FrameRate::Fps30Ndf).is_some());
}

#[test]
fn decoder_ignores_non_quarter_frames() {
    let mut decoder = MtcDecoder::new();
    decoder.feed(&Midi1Message::TimingClock);
    assert!(decoder.is_idle());
    assert_eq!(decoder.timecode, None);
}
