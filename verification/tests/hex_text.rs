//! Hex-text encoding and decoding.

fn enc_str(bytes: &[u8]) -> String {
    let v: Vec<u8> = bytes.to_vec();
    String::from_utf8(farcoin::hex::hex_encode(&v)).unwrap()
}

#[test]
fn hex_encode_exact_value() {
    assert_eq!(enc_str(&[0xfc, 0x01, 0x00, 0xab]), "fc0100ab");
    assert_eq!(enc_str(&[]), "");
}

#[test]
fn hex_round_trip() {
    let data: Vec<u8> = (0u16..256).map(|b| b as u8).collect();
    let text = enc_str(&data);
    let back = farcoin::hex::hex_decode(&text).unwrap();
    assert_eq!(back, data);
}

#[test]
fn hex_decode_uppercase() {
    assert_eq!(farcoin::hex::hex_decode("FC01").unwrap(), vec![0xfc, 0x01]);
    assert_eq!(farcoin::hex::hex_decode("aBcD").unwrap(), vec![0xab, 0xcd]);
}

#[test]
fn hex_decode_rejects_bad_input() {
    assert!(farcoin::hex::hex_decode("f").is_none());
    assert!(farcoin::hex::hex_decode("zz").is_none());
    assert!(farcoin::hex::hex_decode("0g").is_none());
    assert!(farcoin::hex::hex_decode("ff ").is_none());
    assert!(farcoin::hex::hex_decode("日本").is_none());
}

#[test]
fn hex_decode_empty_is_empty() {
    assert_eq!(farcoin::hex::hex_decode("").unwrap(), Vec::<u8>::new());
}
