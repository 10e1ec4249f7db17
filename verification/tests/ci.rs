use tpt_av_control::ci::{CiDiscoverySession, CiMessage, CI_VERSION};
use tpt_av_control::midi1::parse_midi1;
use tpt_av_control::sysex;

#[test]
fn discovery_roundtrip() {
    let message = CiMessage::Discovery {
        device_id: 0x7F,
        version: CI_VERSION,
        source_muid: 0x0F1E_2D3C,
        profiles: vec![0x01, 0x02],
        protocol_type: 0x01,
        extensions: 0x7F,
    }
    .to_midi1()
    .unwrap();
    let parsed = parse_midi1(&message.to_bytes()).unwrap();
    match CiMessage::from_midi1(&parsed).unwrap() {
        CiMessage::Discovery { version, source_muid, profiles, .. } => {
            assert_eq!(version, CI_VERSION);
            assert_eq!(source_muid, 0x0F1E_2D3C);
            assert_eq!(profiles, vec![0x01, 0x02]);
        }
        other => panic!("unexpected {other:?}"),
    }
}

#[test]
fn discovery_reply_roundtrip() {
    let message = CiMessage::DiscoveryReply {
        device_id: 0x7F,
        version: CI_VERSION,
        source_muid: 0x1234,
        destination_muid: 0x5678,
        profiles: vec![],
        protocol_type: 0x00,
        extensions: 0x7F,
    }
    .to_midi1()
    .unwrap();
    let parsed = parse_midi1(&message.to_bytes()).unwrap();
    match CiMessage::from_midi1(&parsed).unwrap() {
        CiMessage::DiscoveryReply { source_muid, destination_muid, .. } => {
            assert_eq!(source_muid, 0x1234);
            assert_eq!(destination_muid, 0x5678);
        }
        other => panic!("unexpected {other:?}"),
    }
}

#[test]
fn endpoint_info_roundtrip() {
    let message = CiMessage::EndpointInfo {
        device_id: 0x7F,
        version: CI_VERSION,
        source_muid: 42,
        protocol_major: 1,
        protocol_minor: 1,
        function_blocks: 3,
        midi2_protocol: true,
    }
    .to_midi1()
    .unwrap();
    let parsed = parse_midi1(&message.to_bytes()).unwrap();
    match CiMessage::from_midi1(&parsed).unwrap() {
        CiMessage::EndpointInfo { protocol_major, protocol_minor, function_blocks, midi2_protocol, .. } => {
            assert_eq!((protocol_major, protocol_minor), (1, 1));
            assert_eq!(function_blocks, 3);
            assert!(midi2_protocol);
        }
        other => panic!("unexpected {other:?}"),
    }
}

#[test]
fn discovery_session_collects_peers() {
    let mut session = CiDiscoverySession::new(0x00AB_CDEF);
    let request = session.discovery_request().unwrap();
    assert!(matches!(
        CiMessage::from_midi1(&parse_midi1(&request.to_bytes()).unwrap()).unwrap(),
        CiMessage::Discovery { .. }
    ));

    let reply = CiMessage::DiscoveryReply {
        device_id: 0x7F,
        version: CI_VERSION,
        source_muid: 0x777,
        destination_muid: session.local_muid,
        profiles: vec![],
        protocol_type: 0,
        extensions: 0,
    }
    .to_midi1()
    .unwrap();
    assert!(session.observe(&reply).unwrap());
    assert!(!session.observe(&reply).unwrap(), "duplicate peer ignored");
    assert_eq!(session.peers, vec![0x777]);
}

#[test]
fn rejects_non_ci() {
    let other = sysex::gm_system_on(0x7F);
    assert!(CiMessage::from_midi1(&other).is_err());
}

#[test]
fn ack_and_nak_roundtrip() {
    for message in [
        CiMessage::Ack { device_id: 0x7F, version: CI_VERSION, source_muid: 5, destination_muid: 6 },
        CiMessage::Nak { device_id: 0x01, version: CI_VERSION, source_muid: 7, destination_muid: 8 },
        CiMessage::EndpointInquiry { device_id: 0x7F, version: CI_VERSION, source_muid: 9, filter_bitmap: 3 },
    ] {
        let m1 = message.to_midi1().unwrap();
        assert_eq!(CiMessage::from_midi1(&m1).unwrap(), message);
    }
}

#[test]
fn endpoint_inquiry_targets_peer() {
    let session = CiDiscoverySession::new(0x10);
    let m = session.endpoint_inquiry(0x777).unwrap();
    match CiMessage::from_midi1(&m).unwrap() {
        CiMessage::EndpointInquiry { source_muid, .. } => assert_eq!(source_muid, 0x10),
        other => panic!("unexpected {other:?}"),
    }
}

#[test]
fn discovery_roundtrips_exactly() {
    for (protocol_type, extensions) in [(0u8, 0u8), (0x01, 0x7F), (0x7F, 0x01)] {
        let message = CiMessage::Discovery {
            device_id: 0x7F,
            version: CI_VERSION,
            source_muid: 0x0ABC_DEF0,
            profiles: vec![0x01, 0x7F],
            protocol_type,
            extensions,
        };
        let parsed = CiMessage::from_midi1(&message.to_midi1().unwrap()).unwrap();
        assert_eq!(parsed, message);
    }
}
