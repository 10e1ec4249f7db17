use tpt_av_control::midi1::parse_midi1;
use tpt_av_control::property::{
    header_field, header_field_num, profile, status, ProfileConfigMessage, PropertyDataSetAssembler,
    PropertyExchangeMessage, PE_GET_PROPERTY_DATA, PE_GET_PROPERTY_DATA_REPLY,
    PE_NOTIFY_PROPERTY_DATA_CHANGED, PE_SET_PROPERTY_DATA, PE_SET_PROPERTY_DATA_REPLY,
    PE_SUBSCRIBE_PROPERTY_DATA, PE_SUBSCRIBE_PROPERTY_DATA_REPLY, PE_SUBSCRIPTION_DATA,
};
use tpt_av_control::sysex;

fn pe(sample: u8) -> PropertyExchangeMessage {
    PropertyExchangeMessage {
        device_id: 0x7F,
        version: 0x01,
        source_muid: 0x0F1E_2D3C,
        destination_muid: 0x123_4567,
        sub_id2: sample,
        request_id: 42,
        status: status::OK,
        header: r#"{"resource":"/cap/device","mediaType":"application/json"}"#.into(),
        data: vec![1, 2, 3, 4, 5],
    }
}

fn carries_data(sub_id2: u8) -> bool {
    matches!(
        sub_id2,
        PE_GET_PROPERTY_DATA_REPLY | PE_SET_PROPERTY_DATA | PE_SUBSCRIPTION_DATA | PE_NOTIFY_PROPERTY_DATA_CHANGED
    )
}

#[test]
fn pe_roundtrips_all_variants() {
    for sub_id2 in [
        PE_GET_PROPERTY_DATA,
        PE_GET_PROPERTY_DATA_REPLY,
        PE_SET_PROPERTY_DATA,
        PE_SET_PROPERTY_DATA_REPLY,
        PE_SUBSCRIBE_PROPERTY_DATA,
        PE_SUBSCRIPTION_DATA,
        PE_SUBSCRIBE_PROPERTY_DATA_REPLY,
        PE_NOTIFY_PROPERTY_DATA_CHANGED,
    ] {
        let mut message = pe(sub_id2);
        if sub_id2 == PE_SET_PROPERTY_DATA_REPLY {
            message.status = status::RESOURCE_NOT_FOUND;
        }
        if !carries_data(sub_id2) {
            message.data.clear();
        }
        let encoded = message.to_midi1().unwrap();
        let parsed = parse_midi1(&encoded.to_bytes()).unwrap();
        let back = PropertyExchangeMessage::from_midi1(&parsed).unwrap();
        assert_eq!(back, message, "sub-id2 {sub_id2:#04x}");
    }
}

#[test]
fn pe_header_size_is_14_bit() {
    let mut message = pe(PE_GET_PROPERTY_DATA);
    message.header = "x".repeat(200);
    let encoded = message.to_midi1().unwrap();
    let parsed = parse_midi1(&encoded.to_bytes()).unwrap();
    let back = PropertyExchangeMessage::from_midi1(&parsed).unwrap();
    assert_eq!(back.header.len(), 200);
}

#[test]
fn pe_rejects_8bit_payloads() {
    let mut message = pe(PE_GET_PROPERTY_DATA_REPLY);
    message.data.push(0x80);
    assert!(message.to_midi1().is_err());
    message.data.pop();
    message.header.push('\u{80}');
    assert!(message.to_midi1().is_err());
}

#[test]
fn pe_rejects_non_pe_messages() {
    let other = sysex::identity_request(0x7F);
    assert!(PropertyExchangeMessage::from_midi1(&other).is_err());
}

#[test]
fn header_field_extracts_strings_and_numbers() {
    let header = r#"{"resource":"/cap/device","chunkCount":3,"enc":"utf-8"}"#;
    assert_eq!(header_field(header, "resource").as_deref(), Some("/cap/device"));
    assert_eq!(header_field_num(header, "chunkCount"), Some(3));
    assert_eq!(header_field(header, "missing"), None);
    assert_eq!(header_field_num(header, "resource"), None);
}

#[test]
fn chunked_dataset_reassembles_in_order() {
    let mut assembler = PropertyDataSetAssembler::default();
    let mk = |chunk: usize, bytes: Vec<u8>| PropertyExchangeMessage {
        device_id: 0x7F,
        version: 1,
        source_muid: 7,
        destination_muid: 9,
        sub_id2: PE_GET_PROPERTY_DATA_REPLY,
        request_id: 5,
        status: 0,
        header: format!(r#"{{"resource":"/big","chunkCount":3,"chunkNumber":{chunk}}}"#),
        data: bytes,
    };

    assert_eq!(assembler.feed(&mk(2, vec![3, 3])).unwrap(), None);
    assert_eq!(assembler.feed(&mk(0, vec![1, 1])).unwrap(), None);
    let (header, data) = assembler.feed(&mk(1, vec![2, 2])).unwrap().unwrap();
    assert!(header.contains("\"resource\":\"/big\""));
    assert_eq!(data, vec![1, 1, 2, 2, 3, 3]);
    let single = PropertyExchangeMessage {
        header: r#"{"resource":"/small"}"#.into(),
        data: vec![9],
        ..pe(PE_GET_PROPERTY_DATA_REPLY)
    };
    let (_, data) = assembler.feed(&single).unwrap().unwrap();
    assert_eq!(data, vec![9]);
}

#[test]
fn chunk_assembler_caps_stream() {
    let mut assembler = PropertyDataSetAssembler::default();
    for i in 0..=PropertyDataSetAssembler::MAX_CHUNKS {
        let message = PropertyExchangeMessage {
            header: format!(r#"{{"chunkNumber":{i},"chunkCount":99999}}"#),
            data: vec![0xAA; 1024],
            ..pe(PE_GET_PROPERTY_DATA_REPLY)
        };
        let result = assembler.feed(&message);
        if i >= PropertyDataSetAssembler::MAX_CHUNKS {
            assert!(result.is_err(), "cap should trigger at chunk {i}");
            return;
        }
        assert!(result.unwrap().is_none());
    }
}

#[test]
fn profile_config_roundtrips() {
    let inquiry = ProfileConfigMessage {
        device_id: 0x7F,
        version: 1,
        source_muid: 100,
        destination_muid: 200,
        sub_id2: profile::INQUIRY,
        profiles: vec![[0x00, 0x10, 0x00], [0x01, 0x00, 0x01]],
        profile: [0, 0],
        addresses: vec![],
    };
    let encoded = inquiry.to_midi1().unwrap();
    let parsed = parse_midi1(&encoded.to_bytes()).unwrap();
    assert_eq!(ProfileConfigMessage::from_midi1(&parsed).unwrap(), inquiry);

    let on = ProfileConfigMessage {
        sub_id2: profile::SET_ON,
        profiles: vec![],
        profile: [0x00, 0x10],
        addresses: vec![1, 0x40 | 3, 127],
        ..inquiry
    };
    let encoded = on.to_midi1().unwrap();
    let parsed = parse_midi1(&encoded.to_bytes()).unwrap();
    assert_eq!(ProfileConfigMessage::from_midi1(&parsed).unwrap(), on);
}

#[test]
fn profile_rejects_non_profile() {
    let other = sysex::gm_system_on(0x7F);
    assert!(ProfileConfigMessage::from_midi1(&other).is_err());
}

#[test]
fn header_field_handles_whitespace_and_prefix_keys() {
    let header = r#"{ "chunkNumberX" : 9, "chunkNumber" :  12 }"#;
    assert_eq!(header_field_num(header, "chunkNumber"), Some(12));
    assert_eq!(header_field(header, "chunkNumberX"), Some("9".to_string()));
}

#[test]
fn messages_without_data_are_not_assembled() {
    let mut assembler = PropertyDataSetAssembler::default();
    let mut m = pe(PE_GET_PROPERTY_DATA);
    m.data.clear();
    assert_eq!(assembler.feed(&m).unwrap(), None);
}

#[test]
fn status_only_travels_on_set_property_data_reply() {
    let mut message = pe(PE_GET_PROPERTY_DATA);
    message.data.clear();
    message.status = status::READ_ONLY;
    let back = PropertyExchangeMessage::from_midi1(&message.to_midi1().unwrap()).unwrap();
    assert_eq!(back.status, 0);
    message.status = 0;
    assert_eq!(back, message);
}

#[test]
fn profile_addresses_keep_fourteen_bits() {
    let on = ProfileConfigMessage {
        device_id: 0x7F,
        version: 1,
        source_muid: 1,
        destination_muid: 2,
        sub_id2: profile::SET_OFF,
        profiles: vec![],
        profile: [0x01, 0x02],
        addresses: vec![0x3FFF, 0x4001],
    };
    let back = ProfileConfigMessage::from_midi1(&on.to_midi1().unwrap()).unwrap();
    assert_eq!(back.addresses, vec![0x3FFF, 0x0001]);
}
