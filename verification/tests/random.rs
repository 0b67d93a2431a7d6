use bluetooth_mesh::random::{secure_random_fill_bytes, Randomizable};

#[test]
fn random_fill_keeps_the_length() {
    let mut buf = vec![0u8; 64];
    secure_random_fill_bytes(&mut buf[..]);
    assert_eq!(buf.len(), 64);
    // 64 zero bytes from a secure generator are not to be expected.
    assert!(buf.iter().any(|b| *b != 0));
}

#[test]
fn random_values_vary() {
    let keys: Vec<[u8; 16]> = (0..4).map(|_| <[u8; 16]>::random_secure()).collect();
    assert!(keys.windows(2).any(|w| w[0] != w[1]));
    let words: Vec<u64> = (0..4).map(|_| u64::random()).collect();
    assert!(words.windows(2).any(|w| w[0] != w[1]));
    let _ = u8::random();
    let _ = u16::random();
    let _ = u32::random_secure();
    let _ = bool::random();
    let _ = u128::random();
    let _ = usize::random_secure();
    let _ = i8::random();
    let _ = i16::random();
    let _ = i32::random();
    let _ = i64::random_secure();
    let _ = i128::random();
    let _ = isize::random();
    let c = char::random();
    assert!(char::from_u32(c as u32).is_some());
    let long: [u8; 64] = <[u8; 64]>::random_secure();
    assert!(long.iter().any(|b| *b != 0));
    let empty: [u8; 0] = <[u8; 0]>::random();
    assert_eq!(empty.len(), 0);
}
