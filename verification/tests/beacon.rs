use bluetooth_mesh::beacon::{
    Beacon, BeaconError, OOBFlags, OOBInformation, URIHash, UnprovisionedDeviceBeacon,
};
use bluetooth_mesh::crypto::s1;
use bluetooth_mesh::mesh;
use bluetooth_mesh::uuid::UUID;

#[test]
pub fn test_unprovisioned() {
    let uuid = UUID(
        UUID::uuid_bytes_from_str("70cf7c9732a345b691494810d2e9cbf4").expect("from spec 8.4.1"),
    );
    let oob = OOBInformation::default()
        .set(OOBFlags::String)
        .set(OOBFlags::OnPieceOfPaper)
        .set(OOBFlags::OnDevice);
    assert_eq!(oob.0, 0xA040);
    let beacon = UnprovisionedDeviceBeacon {
        uuid,
        oob_information: oob,
        uri_hash: None,
    };
    let mut buf = vec![0_u8; UnprovisionedDeviceBeacon::min_len()];
    let expected: Vec<u8> =
        mesh::bytes_str_to_buf("70cf7c9732a345b691494810d2e9cbf4a040").expect("from spec 8.4.1");
    beacon.pack_into(&mut buf[..]).expect("simple beacon pack");
    assert_eq!(buf, expected);
}

#[test]
pub fn test_unprovisioned_with_uri() {
    // 0x17 is uri::URIName::https.
    let uri = "\x17//www.example.com/mesh/products/light-switch-v3";
    let _oob = OOBInformation::default()
        .set(OOBFlags::Number)
        .set(OOBFlags::InsideManual);
    let uri_hash = URIHash::hash_data(uri.as_bytes());
    assert_eq!(u32::from_be_bytes([0xD9, 0x74, 0x78, 0xB3]), uri_hash.0);
}

#[test]
fn unprovisioned_beacon_roundtrip_with_uri_hash() {
    let beacon = UnprovisionedDeviceBeacon {
        uuid: UUID([7u8; 16]),
        oob_information: OOBInformation(0x1234),
        uri_hash: Some(URIHash(0xD97478B3)),
    };
    assert_eq!(beacon.byte_len(), UnprovisionedDeviceBeacon::max_len());
    let mut buf = vec![0u8; 22];
    beacon.pack_into(&mut buf[..]).unwrap();
    let mut expected = vec![7u8; 16];
    expected.extend_from_slice(&[0x12, 0x34, 0xD9, 0x74, 0x78, 0xB3]);
    assert_eq!(buf, expected);
    assert_eq!(UnprovisionedDeviceBeacon::unpack_from(&buf), Ok(beacon));
}

#[test]
fn unprovisioned_beacon_roundtrip_without_uri_hash() {
    let beacon = UnprovisionedDeviceBeacon {
        uuid: UUID([1, 2, 3, 4, 5, 6, 7, 8, 9, 10, 11, 12, 13, 14, 15, 16]),
        oob_information: OOBInformation(0xA040),
        uri_hash: None,
    };
    let mut buf = vec![0u8; beacon.byte_len()];
    beacon.pack_into(&mut buf[..]).unwrap();
    assert_eq!(UnprovisionedDeviceBeacon::unpack_from(&buf), Ok(beacon));
}

#[test]
fn unprovisioned_beacon_bad_lengths() {
    let beacon = UnprovisionedDeviceBeacon {
        uuid: UUID([0u8; 16]),
        oob_information: OOBInformation(1),
        uri_hash: None,
    };
    let mut short = vec![9u8; 17];
    assert_eq!(beacon.pack_into(&mut short[..]), Err(BeaconError::BadLength));
    assert_eq!(short, vec![9u8; 17]);
    let mut long = vec![9u8; 22];
    assert_eq!(beacon.pack_into(&mut long[..]), Err(BeaconError::BadLength));
    for n in [0usize, 1, 17, 19, 21, 23, 40] {
        assert_eq!(
            UnprovisionedDeviceBeacon::unpack_from(&vec![0u8; n]),
            Err(BeaconError::BadLength)
        );
    }
}

#[test]
fn oob_information_set_and_get() {
    let oob = OOBInformation::default().set(OOBFlags::Number).set(OOBFlags::InsideManual);
    assert_eq!(oob.0, (1 << 5) | (1 << 14));
    assert!(oob.get(OOBFlags::Number));
    assert!(oob.get(OOBFlags::InsideManual));
    assert!(!oob.get(OOBFlags::Other));
    assert!(!oob.get(OOBFlags::OnDevice));
    assert_eq!(oob.set(OOBFlags::Number), oob);
    assert_eq!(u16::from(OOBFlags::OnDevice), 15);
}

#[test]
fn uri_hash_from_salt_takes_first_four_bytes() {
    let salt = [0x01, 0x02, 0x03, 0x04, 5, 6, 7, 8, 9, 10, 11, 12, 13, 14, 15, 16];
    assert_eq!(URIHash::from_salt(&salt), URIHash(0x01020304));
}

#[test]
fn s1_of_test() {
    // Sample data of the mesh specification, 8.1.1: s1("test").
    let expected = mesh::bytes_str_to_buf("b73cefbd641ef2ea598c2b6efb62f79c").unwrap();
    let salt = s1("test".as_bytes());
    assert_eq!(salt.to_vec(), expected);
}
