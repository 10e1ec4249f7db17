use tpt_av_control::error::ControlError;
use tpt_av_control::bundle::{parse_bundle, parse_messages, parse_packet, OscBundle, OscPacket};
use tpt_av_control::message::{OscArg, OscMessage};

#[test]
fn roundtrips_nested_bundles() {
    let leaf = OscPacket::Message(OscMessage::new("/leaf", &[OscArg::Float(1.0f32.to_bits())]).unwrap());
    let inner = OscPacket::Bundle(OscBundle::new(Some(42), vec![leaf]));
    let outer = OscBundle::new(
        Some(0x0000_0001_0000_0000),
        vec![OscPacket::Message(OscMessage::new("/a", &[]).unwrap()), inner],
    );
    let bytes = outer.encode();
    let back = OscBundle::decode(&bytes).unwrap();
    assert_eq!(back, outer);
    assert_eq!(back.timestamp, Some(0x0000_0001_0000_0000));
}

#[test]
fn immediate_encodes_as_timetag_one() {
    let b = OscBundle::new(None, vec![]);
    let bytes = b.encode();
    assert_eq!(&bytes[8..16], &1u64.to_be_bytes());
    let back = OscBundle::decode(&bytes).unwrap();
    assert_eq!(back.timestamp, None);
}

#[test]
fn empty_bundle_roundtrips() {
    let b = OscBundle::new(Some(7), vec![]);
    assert_eq!(OscBundle::decode(&b.encode()).unwrap(), b);
}

#[test]
fn rejects_bad_marker() {
    let msg = OscMessage::new("/not-a-bundle", &[]).unwrap().encode();
    assert!(parse_bundle(&msg).is_err());
    assert!(parse_bundle(&[0u8; 8]).is_err());
}

#[test]
fn rejects_truncated_elements() {
    let b = OscBundle::new(None, vec![OscPacket::Message(OscMessage::new("/m", &[OscArg::Int(1)]).unwrap())]);
    let good = b.encode();
    for len in 0..16usize {
        assert!(OscBundle::decode(&good[..len]).is_err(), "len {len}");
    }
    for len in 17..good.len() {
        assert!(OscBundle::decode(&good[..len]).is_err(), "len {len}");
    }
    let mut hostile = good.clone();
    let elem_size_pos = 16usize;
    hostile[elem_size_pos..elem_size_pos + 4].copy_from_slice(&4096u32.to_be_bytes());
    assert!(OscBundle::decode(&hostile).is_err());
}

#[test]
fn packets_flatten_to_messages_in_order() {
    let inner = OscBundle::new(Some(3), vec![OscPacket::Message(OscMessage::new("/deep", &[]).unwrap())]);
    let outer = OscBundle::new(
        None,
        vec![OscPacket::Bundle(inner), OscPacket::Message(OscMessage::new("/one", &[]).unwrap())],
    );
    let messages = parse_messages(&outer.encode()).unwrap();
    let addresses: Vec<&str> = messages.iter().map(|m| m.address.as_str()).collect();
    assert_eq!(addresses, vec!["/deep", "/one"]);

    let single = OscMessage::new("/solo", &[OscArg::Int(4)]).unwrap();
    assert_eq!(parse_packet(&single.encode()).unwrap(), OscPacket::Message(single.clone()));
    assert!(parse_messages(&[]).is_err());
}

#[test]
fn timetag_one_reads_back_as_immediate() {
    let b = OscBundle::new(Some(1), vec![]);
    assert_eq!(OscBundle::decode(&b.encode()).unwrap().timestamp, None);
}

#[test]
fn deeply_nested_bundles_roundtrip() {
    let mut b = OscBundle::new(Some(2), vec![OscPacket::Message(OscMessage::new("/leaf", &[OscArg::Int(9)]).unwrap())]);
    for depth in 0..10u64 {
        b = OscBundle::new(Some(100 + depth), vec![OscPacket::Bundle(b)]);
    }
    let bytes = b.encode();
    let back = OscBundle::decode(&bytes).unwrap();
    assert_eq!(back, b);
}

#[test]
fn bundle_errors_name_their_cause() {
    // An element whose address holds a space.
    let mut element = b"/a b\0\0\0\0,\0\0\0".to_vec();
    let mut bytes = b"#bundle\0".to_vec();
    bytes.extend_from_slice(&1u64.to_be_bytes());
    bytes.extend_from_slice(&(element.len() as u32).to_be_bytes());
    bytes.append(&mut element);
    assert!(matches!(OscBundle::decode(&bytes), Err(ControlError::InvalidAddress(_))));
    assert!(matches!(parse_messages(&bytes), Err(ControlError::InvalidAddress(_))));
    // The same bundle cut short inside the element.
    let cut = &bytes[..bytes.len() - 2];
    assert!(matches!(OscBundle::decode(cut), Err(ControlError::InvalidData(_))));
    assert!(matches!(parse_packet(b"#bundl\0\0"), Err(ControlError::InvalidData(_))));
}
