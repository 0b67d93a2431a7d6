use bluetooth_mesh::bytes::ToFromBytesEndian;
use bluetooth_mesh::mesh::{
    bytes_str_to_buf, parse_key_index, SequenceNumber, CTL, IVI, MIC, NID, TTL, U24,
};
use bluetooth_mesh::uuid::UUID;

#[test]
fn test_ttl() {
    assert!(!TTL::new(0).should_relay());
    assert!(!TTL::new(1).should_relay());
    assert!(TTL::new(2).should_relay());
    assert!(TTL::new(65).should_relay());
    assert!(TTL::new(126).should_relay());
    assert!(TTL::new(127).should_relay())
}

#[test]
fn ttl_flag_roundtrip() {
    let t = TTL::new(5);
    assert_eq!(t.with_flag(false), 5);
    assert_eq!(t.with_flag(true), 133);
    assert_eq!(TTL::new_with_flag(133), (TTL::new(5), true));
    assert_eq!(TTL::new_with_flag(5), (TTL::new(5), false));
    assert_eq!(TTL::from_masked_u8(0xFF), TTL::new(127));
    assert_eq!(TTL::new_with_flag(t.with_flag(true)), (t, true));
}

#[test]
fn nid_flag_roundtrip() {
    let n = NID::new(0x68);
    assert_eq!(n.with_flag(true), 0xE8);
    assert_eq!(n.with_flag(false), 0x68);
    assert_eq!(NID::new_with_flag(0xE8), (n, true));
    assert_eq!(NID::from_masked_u8(0xE8), n);
    assert_eq!(NID::new_with_flag(0x00), (NID::new(0), false));
}

#[test]
fn ivi_and_ctl_convert_to_and_from_bool() {
    assert_eq!(bool::from(IVI(true)), true);
    assert_eq!(IVI::from(false), IVI(false));
    assert_eq!(bool::from(CTL(false)), false);
    assert_eq!(CTL::from(true), CTL(true));
}

#[test]
fn u24_values() {
    assert_eq!(U24::new(0xFFFFFF).value(), 0xFFFFFF);
    assert_eq!(U24::new_masked(0x12345678).value(), 0x345678);
    assert_eq!(U24::from((0x01, 0x02, 0x03)).value(), 0x030201);
    assert_eq!(U24::default().value(), 0);
}

#[test]
fn u24_little_endian_roundtrip() {
    let u = U24::new(0x123456);
    assert_eq!(u.to_bytes_le(), [0x56, 0x34, 0x12]);
    assert_eq!(U24::from_bytes_le(&[0x56, 0x34, 0x12]), Some(u));
    assert_eq!(U24::from_bytes_le(&u.to_bytes_le()), Some(u));
    assert_eq!(U24::from_bytes_le(&[1, 2]), None);
    assert_eq!(U24::from_bytes_le(&[1, 2, 3, 4]), None);
}

#[test]
fn u24_big_endian_uses_the_high_bytes_of_four() {
    let u = U24::new(0x123456);
    assert_eq!(u.to_bytes_be(), [0x00, 0x12, 0x34]);
    assert_eq!(U24::from_bytes_be(&[0x12, 0x34, 0x56]).map(|v| v.value()), Some(0x12345600));
    assert_eq!(U24::from_bytes_be(&u.to_bytes_be()).map(|v| v.value()), Some(0x123400));
    let w = U24::new(0x123400);
    assert_eq!(U24::from_bytes_be(&w.to_bytes_be()), Some(w));
    assert_eq!(U24::from_bytes_be(&[]), None);
}

#[test]
fn sequence_number_bytes() {
    let s = SequenceNumber(U24::new(0x000102));
    assert_eq!(s.to_bytes_le(), [0x02, 0x01, 0x00]);
    assert_eq!(SequenceNumber::from_bytes_le(&[0x02, 0x01, 0x00]), Some(s));
    assert_eq!(s.to_bytes_be(), [0x00, 0x00, 0x01]);
    assert_eq!(
        SequenceNumber::from_bytes_be(&[0x00, 0x01, 0x02]).map(|n| n.0.value()),
        Some(0x00010200)
    );
    assert_eq!(SequenceNumber::from_bytes_le(&[1]), None);
}

#[test]
fn integer_bytes_roundtrip() {
    assert_eq!(0x1234u16.to_bytes_be(), [0x12, 0x34]);
    assert_eq!(0x1234u16.to_bytes_le(), [0x34, 0x12]);
    assert_eq!(u16::from_bytes_be(&[0x12, 0x34]), Some(0x1234));
    assert_eq!(u16::from_bytes_le(&[0x12, 0x34]), Some(0x3412));
    assert_eq!(0xDEADBEEFu32.to_bytes_be(), [0xDE, 0xAD, 0xBE, 0xEF]);
    assert_eq!(u32::from_bytes_le(&0xDEADBEEFu32.to_bytes_le()), Some(0xDEADBEEF));
    let v: u64 = 0x0102030405060708;
    assert_eq!(v.to_bytes_be(), [1, 2, 3, 4, 5, 6, 7, 8]);
    assert_eq!(v.to_bytes_le(), [8, 7, 6, 5, 4, 3, 2, 1]);
    assert_eq!(u64::from_bytes_be(&v.to_bytes_be()), Some(v));
    assert_eq!(u64::from_bytes_le(&v.to_bytes_le()), Some(v));
    assert_eq!(u32::from_bytes_be(&[1, 2, 3]), None);
    assert_eq!(u64::from_bytes_le(&[1, 2, 3, 4]), None);
}

#[test]
fn mic_from_bytes() {
    let small = MIC::try_from_bytes_be(&[0x01, 0x02, 0x03, 0x04]).unwrap();
    assert_eq!(small, MIC::Small(0x01020304));
    assert!(!small.is_big());
    assert_eq!(small.byte_size(), 4);
    assert_eq!(small.mic(), 0x01020304);
    let big = MIC::try_from_bytes_le(&[1, 0, 0, 0, 0, 0, 0, 0x80]).unwrap();
    assert_eq!(big, MIC::Big(0x8000000000000001));
    assert!(big.is_big());
    assert_eq!(big.byte_size(), 8);
    assert_eq!(MIC::try_from_bytes_le(&[1, 2, 3, 4]), Some(MIC::Small(0x04030201)));
    assert_eq!(MIC::try_from_bytes_be(&[1, 2, 3, 4, 5]), None);
    assert_eq!(MIC::try_from_bytes_le(&[]), None);
}

#[test]
fn hex_strings() {
    assert_eq!(bytes_str_to_buf("00ffA0"), Some(vec![0x00, 0xFF, 0xA0]));
    assert_eq!(bytes_str_to_buf(""), Some(vec![]));
    assert_eq!(bytes_str_to_buf("abc"), None);
    assert_eq!(bytes_str_to_buf("zz"), None);
    assert_eq!(
        UUID::uuid_bytes_from_str("000102030405060708090a0b0c0d0e0f"),
        Some([0, 1, 2, 3, 4, 5, 6, 7, 8, 9, 10, 11, 12, 13, 14, 15])
    );
    assert_eq!(UUID::uuid_bytes_from_str("0001"), None);
    assert_eq!(UUID::uuid_bytes_from_str("x00102030405060708090a0b0c0d0e0f"), None);
}

#[test]
fn key_indexes_are_twelve_bits() {
    assert_eq!(parse_key_index("0"), Some(0));
    assert_eq!(parse_key_index("4095"), Some(0xFFF));
    assert_eq!(parse_key_index("+12"), Some(12));
    assert_eq!(parse_key_index("0042"), Some(42));
    assert_eq!(parse_key_index("4096"), None);
    assert_eq!(parse_key_index("65536"), None);
    assert_eq!(parse_key_index("99999999999999999999"), None);
    assert_eq!(parse_key_index(""), None);
    assert_eq!(parse_key_index("+"), None);
    assert_eq!(parse_key_index("-1"), None);
    assert_eq!(parse_key_index("12a"), None);
    assert_eq!(parse_key_index(" 12"), None);
}
