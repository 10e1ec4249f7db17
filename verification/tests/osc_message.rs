use tpt_av_control::message::{parse_osc_message, validate_address, OscArg, OscArgRef, OscMessage};

fn msg(addr: &str, args: &[OscArg]) -> OscMessage {
    OscMessage::new(addr, args).unwrap()
}

#[test]
fn encodes_spec_example_exactly() {
    let m = msg("/oscillator/4/frequency", &[OscArg::Float(440.0f32.to_bits())]);
    let bytes = m.encode();
    let expected: &[u8] = &[
        b'/', b'o', b's', b'c', b'i', b'l', b'l', b'a', b't', b'o', b'r', b'/', b'4', b'/', b'f',
        b'r', b'e', b'q', b'u', b'e', b'n', b'c', b'y', 0, b',', b'f', 0, 0, 0x43, 0xDC, 0x00, 0x00,
    ];
    assert_eq!(bytes, expected);
}

#[test]
fn encodes_int_example_exactly() {
    let m = msg("/foo", &[OscArg::Int(1000)]);
    let expected: &[u8] = &[b'/', b'f', b'o', b'o', 0, 0, 0, 0, b',', b'i', 0, 0, 0x00, 0x00, 0x03, 0xE8];
    assert_eq!(m.encode(), expected);
}

#[test]
fn roundtrips_all_arg_types() {
    let args = vec![
        OscArg::Int(-1),
        OscArg::Int(i32::MAX),
        OscArg::Float((-2.5f32).to_bits()),
        OscArg::Float(f32::MIN_POSITIVE.to_bits()),
        OscArg::String("héllo world".into()),
        OscArg::String(String::new()),
        OscArg::Blob(vec![1, 2, 3, 4, 5]),
        OscArg::Blob(vec![]),
        OscArg::Long(i64::MIN),
        OscArg::Time(0x8000_0000_0000_0001),
        OscArg::Double(std::f64::consts::PI.to_bits()),
        OscArg::Symbol("sym".into()),
        OscArg::Char('Z'),
        OscArg::Color(0x1122_3344),
        OscArg::Midi(0x90_3C_64_00),
        OscArg::Bool(true),
        OscArg::Bool(false),
        OscArg::Nil,
        OscArg::Inf,
    ];
    let m = msg("/round/trip", &args);
    let back = OscMessage::decode(&m.encode()).unwrap();
    assert_eq!(back, m);
}

#[test]
fn blob_padding_all_cases() {
    for size in 0..12usize {
        let m = msg("/b", &[OscArg::Blob(vec![0xAA; size])]);
        let back = OscMessage::decode(&m.encode()).unwrap();
        assert_eq!(back.arguments[0], OscArg::Blob(vec![0xAA; size]));
    }
}

#[test]
fn type_tags_derive() {
    let m = msg("/t", &[OscArg::Int(1), OscArg::Float(2.0f32.to_bits()), OscArg::Bool(true)]);
    assert_eq!(m.type_tags(), ",ifT");
    let empty = msg("/t", &[]);
    assert_eq!(empty.type_tags(), ",");
}

#[test]
fn zero_copy_parser_borrows() {
    let bytes = msg("/vol/1", &[OscArg::Float(0.5f32.to_bits()), OscArg::Int(3)]).encode();
    let r = parse_osc_message(&bytes).unwrap();
    assert_eq!(r.address(), "/vol/1");
    assert_eq!(r.type_tags(), "fi");
    assert_eq!(r.arg_count(), 2);
    assert_eq!(r.arg(0), Some(OscArgRef::Float(0.5f32.to_bits())));
    assert_eq!(r.arg(1), Some(OscArgRef::Int(3)));
    assert_eq!(r.arg(2), None);
    assert_eq!(r.to_owned(), OscMessage::decode(&bytes).unwrap());
}

#[test]
fn rejects_malformed_input() {
    assert!(parse_osc_message(b"").is_err(), "empty");
    assert!(parse_osc_message(b"no-slash\0\0\0\0").is_err(), "no slash");
    assert!(parse_osc_message(b"/a\0").is_err(), "truncated address pad");

    let good = msg("/x", &[OscArg::Float(1.0f32.to_bits()), OscArg::String("ab".into())]).encode();
    for len in 0..good.len() {
        assert!(OscMessage::decode(&good[..len]).is_err(), "expected failure at len {len}");
    }

    let bad: &[u8] = b"/x\0\0\0\0i\0\0\0\x01";
    assert!(OscMessage::decode(bad).is_err());

    let bad: &[u8] = b"/x\0\0\0\0,\x7F\0\0";
    assert!(OscMessage::decode(bad).is_err());
}

#[test]
fn address_validation() {
    assert!(OscMessage::new("/ok", &[]).is_ok());
    assert!(OscMessage::new("no-leading-slash", &[]).is_err());
    assert!(OscMessage::new("", &[]).is_err());
    assert!(OscMessage::new("/has space", &[]).is_err());
    assert!(OscMessage::new("/non\u{1F600}ascii", &[]).is_err());
}

#[test]
fn validate_address_accepts_printable_ascii() {
    assert!(validate_address("/a-b_c/1").is_ok());
    assert!(validate_address("/a\u{7F}").is_err());
    assert!(validate_address("/").is_ok());
}

#[test]
fn zero_copy_args_convert_to_owned() {
    let bytes = msg("/s", &[OscArg::String("hi".into()), OscArg::Blob(vec![7, 8])]).encode();
    let r = parse_osc_message(&bytes).unwrap();
    let args = r.args();
    assert_eq!(args, vec![OscArgRef::Str("hi"), OscArgRef::Blob(&[7, 8])]);
    assert_eq!(args[0].to_owned_arg(), OscArg::String("hi".into()));
    assert_eq!(args[1].type_tag(), 'b');
}

#[test]
fn data_free_tags_in_any_position_roundtrip() {
    let m = msg(
        "/q",
        &[OscArg::Bool(true), OscArg::Int(5), OscArg::Nil, OscArg::String("x".into()), OscArg::Inf, OscArg::Int(6)],
    );
    let bytes = m.encode();
    let r = parse_osc_message(&bytes).unwrap();
    assert_eq!(r.type_tags(), "TiNsIi");
    assert_eq!(r.arg(1), Some(OscArgRef::Int(5)));
    assert_eq!(r.arg(5), Some(OscArgRef::Int(6)));
    assert_eq!(OscMessage::decode(&bytes).unwrap(), m);
    for len in 0..bytes.len() {
        assert!(OscMessage::decode(&bytes[..len]).is_err(), "len {len}");
    }
}

#[test]
fn parse_osc_message_is_allocation_free() {
    let message = OscMessage::new("/track/1/volume", &[OscArg::Float(0.75f32.to_bits()), OscArg::Int(3)])
        .expect("valid OSC message");
    let encoded = message.encode();
    let parsed = parse_osc_message(&encoded).expect("valid buffer must parse");
    assert_eq!(parsed.address(), "/track/1/volume");
    // The address is borrowed from the buffer, not copied.
    let range = encoded.as_ptr_range();
    assert!(range.contains(&parsed.address().as_ptr()));
}
