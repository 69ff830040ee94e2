use bloom::hash::keccak_256;
use bloom::hello::{decode_hello, hello_message};
use bloom::hex::tx_body_from_text;
use bloom::text::decimal_string;

fn hex_of(bytes: &[u8]) -> String {
    bytes.iter().map(|b| format!("{:02x}", b)).collect()
}

#[test]
fn keccak_of_empty_input() {
    assert_eq!(
        hex_of(&keccak_256(b"")),
        "c5d2460186f7233c927e7db2dcc703c0e500b653ca82273b7bfad8045d85a470"
    );
}

#[test]
fn keccak_of_abc() {
    assert_eq!(
        hex_of(&keccak_256(b"abc")),
        "4e03657aea45a94fc7d47ba826c8d667c0d1e6e33a64a036ec44f58fa12d6c45"
    );
}

#[test]
fn hex_lower_and_upper_case() {
    assert_eq!(tx_body_from_text("666f6f626172", true), Some(b"foobar".to_vec()));
    assert_eq!(tx_body_from_text("666F6F626172", true), Some(b"foobar".to_vec()));
}

#[test]
fn hex_skips_spacing_between_digits() {
    assert_eq!(tx_body_from_text("666f 6f6\r\n26172 ", true), Some(b"foobar".to_vec()));
    assert_eq!(tx_body_from_text("\t", true), Some(Vec::new()));
}

#[test]
fn hex_refuses_odd_length() {
    assert_eq!(tx_body_from_text("666", true), None);
    assert_eq!(tx_body_from_text("66 6", true), None);
}

#[test]
fn hex_refuses_other_characters() {
    assert_eq!(tx_body_from_text("66y6", true), None);
    assert_eq!(tx_body_from_text("0x00", true), None);
    assert_eq!(tx_body_from_text("é0", true), None);
}

#[test]
fn text_body_is_its_utf8_bytes() {
    assert_eq!(tx_body_from_text("66y6", false), Some(b"66y6".to_vec()));
    assert_eq!(tx_body_from_text("é", false), Some(vec![0xc3, 0xa9]));
    assert_eq!(tx_body_from_text("", false), Some(Vec::new()));
}

#[test]
fn decimal_rendering() {
    assert_eq!(decimal_string(0), "0");
    assert_eq!(decimal_string(7), "7");
    assert_eq!(decimal_string(10), "10");
    assert_eq!(decimal_string(305), "305");
    assert_eq!(decimal_string(u64::MAX), "18446744073709551615");
}

#[test]
fn hello_message_bytes() {
    let mut expected = vec![0xeb, 0x88];
    expected.extend_from_slice(b"hello, 7");
    expected.push(0xa1);
    expected.extend_from_slice(&[b'1'; 33]);
    assert_eq!(hello_message(7), expected);
}

#[test]
fn hello_round_trip() {
    let data = hello_message(12345);
    let (greeting, marker) = decode_hello(&data).unwrap();
    assert_eq!(greeting, "hello, 12345");
    assert_eq!(marker, "111111111111111111111111111111111");
}

#[test]
fn hello_refuses_malformed_input() {
    assert!(decode_hello(&[]).is_none());
    assert!(decode_hello(&[0x83, b'a', b'b', b'c']).is_none());
    // a list with a single string
    assert!(decode_hello(&[0xc2, 0x81, 0x80]).is_none());
    // a list whose length runs past the data
    assert!(decode_hello(&[0xc5, 0x80]).is_none());
    // second item not valid UTF-8
    assert!(decode_hello(&[0xc4, 0x80, 0x82, 0xff, 0xfe]).is_none());
}

#[test]
fn hello_for_large_peer_number_uses_long_list_header() {
    // "hello, " and 20 digits make a 27-byte string, so the list payload is
    // 28 + 34 = 62 bytes and takes the long list form.
    let data = hello_message(u64::MAX as usize);
    assert_eq!(data[0], 0xf8);
    assert_eq!(data[1], 62);
    assert_eq!(data[2], 0x80 + 27);
    assert_eq!(&data[3..30], b"hello, 18446744073709551615");
    assert_eq!(data.len(), 64);
    let (greeting, _) = decode_hello(&data).unwrap();
    assert_eq!(greeting, "hello, 18446744073709551615");
}
