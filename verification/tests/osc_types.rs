use tpt_av_control::types::{
    padded_into, padded_len, read_i32, read_i64, read_null_terminated, read_u32, read_u64,
    string_to_padded_bytes,
};

#[test]
fn padded_len_rules() {
    assert_eq!(padded_len(0), 0);
    assert_eq!(padded_len(1), 4);
    assert_eq!(padded_len(3), 4);
    assert_eq!(padded_len(4), 4);
    assert_eq!(padded_len(5), 8);
}

#[test]
fn string_padding() {
    assert_eq!(string_to_padded_bytes("").len(), 4);
    assert_eq!(string_to_padded_bytes("a").len(), 4);
    assert_eq!(string_to_padded_bytes("abcd").len(), 8);
    assert_eq!(string_to_padded_bytes("abcde").len(), 8);
    assert_eq!(string_to_padded_bytes("ab"), b"ab\0\0");
}

#[test]
fn read_scalars() {
    let data = [0x00, 0x00, 0x01, 0x00, 0x40, 0xCC, 0x00, 0x00];
    assert_eq!(read_u32(&data, 0).unwrap(), 256);
    assert_eq!(read_i32(&data, 0).unwrap(), 256);
    assert!((f32::from_bits(read_u32(&data, 4).unwrap()) - 6.375).abs() < 1e-6);
    assert!(read_u32(&data, 5).is_err());
}

#[test]
fn read_null_terminated_pads() {
    let data = b"abc\0de\0\0";
    let (payload, next) = read_null_terminated(data, 0).unwrap();
    assert_eq!(payload, b"abc");
    assert_eq!(next, 4);
    let (payload2, _) = read_null_terminated(data, 4).unwrap();
    assert_eq!(payload2, b"de");
    assert!(read_null_terminated(b"abcd", 0).is_err());
}

#[test]
fn read_wide_scalars() {
    let data = [0xFF, 0xFF, 0xFF, 0xFF, 0xFF, 0xFF, 0xFF, 0xFE, 0x00];
    assert_eq!(read_u64(&data, 0).unwrap(), 0xFFFF_FFFF_FFFF_FFFE);
    assert_eq!(read_i64(&data, 0).unwrap(), -2);
    assert_eq!(read_i32(&data, 0).unwrap(), -1);
    assert!(read_u64(&data, 2).is_err());
    assert!(read_i64(&data, 9).is_err());
}

#[test]
fn padded_into_appends_nul_and_pad() {
    let mut buf = vec![9u8];
    padded_into(&mut buf, b"abcd");
    assert_eq!(buf, vec![9, b'a', b'b', b'c', b'd', 0, 0, 0, 0]);
}
