use tpt_av_control::artnet::{build_art_poll_reply, build_artdmx, parse_packet, receive_datagram, ArtNetPacket, ArtNetReceive};
use tpt_av_control::dmx::{DmxUniverse, DMX_CHANNELS};
use tpt_av_control::sacn::{
    self, acn_identifier_bytes, build_data_packet, Cid, VECTOR_E131_DATA_PACKET, VECTOR_ROOT_E131_DATA,
};
use tpt_av_control::server::{classify_datagram, DmxProtocol, DmxSender, DmxServerState};

#[test]
fn artdmx_packet_layout() {
    let mut data = [0u8; DMX_CHANNELS];
    data[0] = 0xFF;
    data[511] = 0x7F;
    let packet = build_artdmx(0, 1, &data);
    assert_eq!(&packet[0..8], b"Art-Net\0");
    assert_eq!(&packet[8..10], &[0x00, 0x50]);
    assert_eq!(&packet[10..12], &[0x00, 14]);
    assert_eq!(packet[12], 1);
    assert_eq!(packet[14], 0);
    assert_eq!(packet[15], 0);
    assert_eq!(&packet[16..18], &[0x02, 0x00]);
    assert_eq!(packet.len(), 18 + 512);
    assert_eq!(packet[18], 0xFF);
    assert_eq!(packet[18 + 511], 0x7F);
}

#[test]
fn artdmx_universe_encoding() {
    let packet = build_artdmx(0x0102, 0, &[0u8; DMX_CHANNELS]);
    assert_eq!(packet[14], 0x02);
    assert_eq!(packet[15], 0x01);
}

#[test]
fn artnet_parse_roundtrip() {
    let packet = build_artdmx(3, 9, &[7u8; DMX_CHANNELS]);
    match parse_packet(&packet).unwrap() {
        ArtNetPacket::Dmx { universe, slots } => {
            assert_eq!(universe, 3);
            assert_eq!(slots.len(), 512);
            assert_eq!(slots[7], 7);
        }
        other => panic!("expected ArtDmx, got {other:?}"),
    }
    let poll = vec![b'A', b'r', b't', b'-', b'N', b'e', b't', 0, 0x00, 0x20, 0x00, 0x0E, 0x00, 0x00];
    match parse_packet(&poll).unwrap() {
        ArtNetPacket::Poll => {}
        other => panic!("expected poll, got {other:?}"),
    }
    assert!(parse_packet(b"not artnet").is_err());
}

#[test]
fn artnet_poll_is_answered() {
    let poll = vec![b'A', b'r', b't', b'-', b'N', b'e', b't', 0, 0x00, 0x20, 0x00, 0x0E, 0x00, 0x00];
    match receive_datagram(&poll, [10, 0, 0, 2]).unwrap() {
        ArtNetReceive::Reply(bytes) => {
            assert_eq!(bytes, build_art_poll_reply([10, 0, 0, 2], "tpt-av-control", 0));
            assert_eq!(&bytes[0..8], b"Art-Net\0");
            assert_eq!(&bytes[8..10], &[0x00, 0x21]);
            assert_eq!(&bytes[10..14], &[10, 0, 0, 2]);
        }
        other => panic!("expected reply, got {other:?}"),
    }
    let packet = build_artdmx(5, 0, &[1u8; DMX_CHANNELS]);
    match receive_datagram(&packet, [10, 0, 0, 2]).unwrap() {
        ArtNetReceive::Universe(u) => {
            assert_eq!(u.universe, 5);
            assert_eq!(u.get_channel(511), 1);
        }
        other => panic!("expected universe, got {other:?}"),
    }
}

#[test]
fn data_packet_layout() {
    let mut slots = [0u8; DMX_CHANNELS];
    slots[0] = 0xAB;
    let cid = Cid::from_bytes(b"test");
    let packet = build_data_packet(&cid, "src", 1, 100, 42, &slots);
    assert_eq!(packet.len(), 638);
    assert_eq!(&packet[0..2], &0x0010u16.to_be_bytes());
    assert_eq!(&packet[4..16], &acn_identifier_bytes()[..]);
    assert_eq!(&packet[16..18], &[0x72, 0x7E]);
    assert_eq!(&packet[18..22], &VECTOR_ROOT_E131_DATA.to_be_bytes());
    assert_eq!(&packet[22..38], &cid.0);
    assert_eq!(&packet[40..44], &VECTOR_E131_DATA_PACKET.to_be_bytes());
    assert_eq!(packet[108], 100);
    assert_eq!(packet[111], 42);
    assert_eq!(&packet[113..115], &1u16.to_be_bytes());
    assert_eq!(packet[125], 0x00);
    assert_eq!(packet[126], 0xAB);
}

#[test]
fn sacn_parse_roundtrip() {
    let mut slots = [0u8; DMX_CHANNELS];
    slots[100] = 9;
    let cid = Cid::from_bytes(b"roundtrip");
    let packet = build_data_packet(&cid, "my console", 42, 90, 7, &slots);
    let parsed = sacn::parse_packet(&packet).unwrap().unwrap();
    assert_eq!(parsed.source_name, "my console");
    assert_eq!(parsed.priority, 90);
    assert_eq!(parsed.sequence, 7);
    assert_eq!(parsed.universe, 42);
    assert_eq!(parsed.slots.len(), 512);
    assert_eq!(parsed.slots[100], 9);

    assert!(sacn::parse_packet(b"short").is_err());
    assert!(sacn::parse_packet(&packet[..50]).is_err());
}

#[test]
fn cid_is_deterministic() {
    let a = Cid::from_bytes(b"seed");
    let b = Cid::from_bytes(b"seed");
    let c = Cid::from_bytes(b"other");
    assert_eq!(a, b);
    assert_ne!(a, c);
}

#[test]
fn server_routes_both_protocols() {
    let mut server = DmxServerState::new();
    assert_eq!(server.last_protocol(), None);

    let mut u = DmxUniverse::new(2);
    u.set_channel(0, 50);
    u.set_channel(511, 200);
    let mut sender = DmxSender::new(DmxProtocol::ArtNet, Cid::from_bytes(b"x"));
    let packet = sender.encode(&u);
    let got = server.receive(&packet).unwrap().unwrap();
    assert_eq!(got.get_channel(0), 50);
    assert_eq!(got.get_channel(511), 200);
    assert_eq!(server.last_protocol(), Some(DmxProtocol::ArtNet));

    let mut sacn_sender = DmxSender::new(DmxProtocol::Sacn, Cid::from_bytes(b"y"));
    sacn_sender.set_sacn_source(Cid::from_bytes(b"z"), "desk");
    let mut v = DmxUniverse::new(3);
    v.set_channel(511, 30);
    let got = server.receive(&sacn_sender.encode(&v)).unwrap().unwrap();
    assert_eq!(got.universe, 3);
    assert_eq!(got.get_channel(511), 30);
    assert_eq!(server.last_protocol(), Some(DmxProtocol::Sacn));
    assert_eq!(server.manager().len(), 2);
    assert_eq!(server.manager().get(2).unwrap().get_channel(0), 50);

    assert!(classify_datagram(b"junk").unwrap().is_none());
}

#[test]
fn sender_sequences_advance() {
    let u = DmxUniverse::new(0);
    let mut sender = DmxSender::new(DmxProtocol::ArtNet, Cid::from_bytes(b"s"));
    assert_eq!(sender.protocol(), DmxProtocol::ArtNet);
    let first = sender.encode(&u);
    let second = sender.encode(&u);
    assert_eq!(first[12], 1);
    assert_eq!(second[12], 2);
    for _ in 0..300 {
        sender.encode(&u);
    }
    let mut sacn_sender = DmxSender::new(DmxProtocol::Sacn, Cid::from_bytes(b"s"));
    let p = sacn_sender.encode(&u);
    assert_eq!(p[111], 1);
}

#[test]
fn invalid_utf8_source_name_is_replaced() {
    let cid = Cid::from_bytes(b"x");
    let mut packet = build_data_packet(&cid, "ab", 1, 100, 1, &[0u8; DMX_CHANNELS]);
    packet[44] = 0xFF;
    let parsed = sacn::parse_packet(&packet).unwrap().unwrap();
    assert_eq!(parsed.source_name, "\u{FFFD}b");
}

#[test]
fn sequence_numbers_advance() {
    let mut sacn_sender = DmxSender::new(DmxProtocol::Sacn, Cid::from_bytes(b"tpt-av-control-sacn"));
    let mut artnet_sender = DmxSender::new(DmxProtocol::ArtNet, Cid::from_bytes(b"tpt-av-control-artnet"));
    let universe = DmxUniverse::new(0);
    let mut last_sacn = Vec::new();
    let mut last_artnet = Vec::new();
    for _ in 0..300 {
        last_sacn = sacn_sender.encode(&universe);
        last_artnet = artnet_sender.encode(&universe);
    }
    // 300 sends wrap the 8-bit counters once: 300 mod 256.
    assert_eq!(last_sacn[111], 44);
    assert_eq!(last_artnet[12], 44);
}
