use tpt_av_control::bundle::{OscBundle, OscPacket};
use tpt_av_control::message::{parse_osc_message, OscArg, OscArgRef, OscMessage};
use tpt_av_control::types::padded_len;

#[test]
fn spec_example_oscillator_frequency() {
    let message = OscMessage::new("/oscillator/4/frequency", &[OscArg::Float(440.0f32.to_bits())]).unwrap();
    let bytes = message.encode();
    assert_eq!(bytes.len(), 32);
    assert_eq!(&bytes[..4], b"/osc");
    assert_eq!(&bytes[24..28], b",f\0\0");
    assert_eq!(&bytes[28..], &[0x43, 0xDC, 0x00, 0x00]);
    let parsed = parse_osc_message(&bytes).unwrap();
    assert_eq!(parsed.address(), "/oscillator/4/frequency");
    assert_eq!(parsed.arg(0), Some(OscArgRef::Float(440.0f32.to_bits())));
}

#[test]
fn padding_rule() {
    for len in 0..=9usize {
        assert_eq!(padded_len(len), len.div_ceil(4) * 4);
    }
    let m = OscMessage::new("/p", &[OscArg::String("ab".into())]).unwrap();
    let bytes = m.encode();
    assert_eq!(bytes.len(), 12);
}

#[test]
fn type_tag_string() {
    let m = OscMessage::new(
        "/tags",
        &[
            OscArg::Int(1),
            OscArg::Float(2.0f32.to_bits()),
            OscArg::String("s".into()),
            OscArg::Blob(vec![0]),
            OscArg::Long(5),
            OscArg::Time(6),
            OscArg::Double(7.0f64.to_bits()),
            OscArg::Bool(true),
            OscArg::Bool(false),
            OscArg::Nil,
            OscArg::Inf,
        ],
    )
    .unwrap();
    assert_eq!(m.type_tags(), ",ifsbhtdTFNI");
    let bytes = m.encode();
    let parsed = parse_osc_message(&bytes).unwrap();
    assert_eq!(parsed.type_tags(), "ifsbhtdTFNI");
}

#[test]
fn bundle_immediate_and_scheduled() {
    let immediate = OscBundle::new(None, vec![]);
    assert_eq!(immediate.encode()[8..16], 1u64.to_be_bytes());

    let scheduled = OscBundle::new(Some(0x83AA_7E80_0000_0000), vec![]);
    assert_eq!(OscBundle::decode(&scheduled.encode()).unwrap().timestamp, Some(0x83AA_7E80_0000_0000));
}

fn inner_bundle() -> OscBundle {
    OscBundle::new(Some(10), vec![OscPacket::Message(OscMessage::new("/in", &[OscArg::Int(2)]).unwrap())])
}

#[test]
fn bundle_nesting_conformance() {
    let outer = OscBundle::new(
        Some(20),
        vec![OscPacket::Message(OscMessage::new("/out", &[]).unwrap()), OscPacket::Bundle(inner_bundle())],
    );
    let decoded = OscBundle::decode(&outer.encode()).unwrap();
    assert_eq!(decoded, outer);
    match &decoded.elements[1] {
        OscPacket::Bundle(b) => {
            assert_eq!(b.timestamp, Some(10));
            assert_eq!(b.elements.len(), 1);
        }
        other => panic!("expected nested bundle, got {other:?}"),
    }
}

#[test]
fn full_argument_roundtrip() {
    let args = vec![
        OscArg::Int(-123456),
        OscArg::Float((-0.125f32).to_bits()),
        OscArg::String("string arg".into()),
        OscArg::Blob((0..=255u8).cycle().take(1000).collect()),
        OscArg::Long(-9_876_543_210),
        OscArg::Time(0x1234_5678_9ABC_DEF0),
        OscArg::Double(std::f64::consts::E.to_bits()),
        OscArg::Symbol("a-symbol".into()),
        OscArg::Char('~'),
        OscArg::Color(0xDEAD_BEEF),
        OscArg::Midi(0x80_24_00_7F),
        OscArg::Bool(true),
        OscArg::Bool(false),
        OscArg::Nil,
        OscArg::Inf,
    ];
    let m = OscMessage::new("/everything", &args).unwrap();
    let decoded = OscMessage::decode(&m.encode()).unwrap();
    assert_eq!(decoded, m);
}

#[test]
fn address_validation_rules() {
    for good in ["/", "/a", "/track/1/volume", "/x-tab_y"] {
        assert!(OscMessage::new(good, &[]).is_ok(), "{good}");
    }
    for bad in ["", "no-slash", "/spa ce", "/tab\tx"] {
        assert!(OscMessage::new(bad, &[]).is_err(), "{bad}");
    }
}

#[test]
fn truncation_is_always_rejected() {
    let m = OscMessage::new(
        "/trunc",
        &[OscArg::String("abcd".into()), OscArg::Float(1.0f32.to_bits()), OscArg::Blob(vec![9; 7])],
    )
    .unwrap();
    let bytes = m.encode();
    for len in 0..bytes.len() {
        assert!(OscMessage::decode(&bytes[..len]).is_err(), "truncation to {len} bytes should fail");
    }
    let b = OscBundle::new(None, vec![OscPacket::Message(m)]);
    let bb = b.encode();
    for len in 0..16usize {
        assert!(OscBundle::decode(&bb[..len]).is_err(), "bundle truncation to {len} bytes should fail");
    }
    for len in 17..bb.len() {
        assert!(OscBundle::decode(&bb[..len]).is_err(), "bundle truncation to {len} bytes should fail");
    }
}

#[test]
fn zero_copy_matches_owned() {
    let m = OscMessage::new(
        "/compare",
        &[OscArg::String("text".into()), OscArg::Blob(vec![1, 2]), OscArg::Double(9.5f64.to_bits())],
    )
    .unwrap();
    let bytes = m.encode();
    let borrowed = parse_osc_message(&bytes).unwrap();
    assert_eq!(borrowed.to_owned(), m);
    assert_eq!(borrowed.address(), "/compare");
    assert_eq!(borrowed.type_tags(), "sbd");
}
