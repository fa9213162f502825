use lib_auth::b58::{b58_decode, b58_decode_to_string, b58_encode};
use lib_auth::b64::{b64u_decode, b64u_decode_to_string, b64u_encode};
use lib_auth::hex::{hex_decode, hex_decode_to_string, hex_encode, hex_encode_upper, Error as HexError};

#[test]
fn b64u_encode_known_values() {
    assert_eq!(b64u_encode(b""), "");
    assert_eq!(b64u_encode(b"f"), "Zg");
    assert_eq!(b64u_encode(b"fo"), "Zm8");
    assert_eq!(b64u_encode(b"foo"), "Zm9v");
    assert_eq!(b64u_encode(b"hello"), "aGVsbG8");
    assert_eq!(b64u_encode(&[0xfb, 0xff]), "-_8");
}

#[test]
fn b64u_decode_round_trip_and_refusals() {
    assert_eq!(b64u_decode("aGVsbG8").unwrap(), b"hello".to_vec());
    assert_eq!(b64u_decode("-_8").unwrap(), vec![0xfb, 0xff]);
    assert!(b64u_decode("aGVsbG8=").is_err());
    assert!(b64u_decode("a").is_err());
    assert!(b64u_decode("Zh").is_err());
    assert!(b64u_decode("a.b").is_err());
}

#[test]
fn b64u_decode_to_string_needs_utf8() {
    assert_eq!(b64u_decode_to_string("aGVsbG8").unwrap(), "hello");
    assert!(b64u_decode_to_string(&b64u_encode(&[0xff, 0xfe])).is_err());
}

#[test]
fn hex_encode_known_values() {
    assert_eq!(hex_encode(&[0x01, 0xab, 0xff]), "01abff");
    assert_eq!(hex_encode_upper(&[0x01, 0xab, 0xff]), "01ABFF");
    assert_eq!(hex_encode(b""), "");
}

#[test]
fn hex_decode_values_and_errors() {
    assert_eq!(hex_decode("01abFF").unwrap(), vec![0x01, 0xab, 0xff]);
    assert_eq!(hex_decode("abc").unwrap_err(), HexError::OddLength);
    assert_eq!(hex_decode("0g12").unwrap_err(), HexError::InvalidHexCharacter { c: 'g', index: 1 });
    assert_eq!(hex_decode("12zz").unwrap_err(), HexError::InvalidHexCharacter { c: 'z', index: 2 });
}

#[test]
fn hex_decode_to_string_needs_utf8() {
    assert_eq!(hex_decode_to_string("68656c6c6f").unwrap(), "hello");
    assert_eq!(hex_decode_to_string("fffe").unwrap_err(), HexError::FailToHexDecodeToString);
    assert_eq!(hex_decode_to_string("6").unwrap_err(), HexError::OddLength);
}

#[test]
fn b58_known_values() {
    assert_eq!(b58_encode(b"hello"), "Cn8eVZg");
    assert_eq!(b58_encode(&[0, 0, 1]), "112");
    assert_eq!(b58_decode("Cn8eVZg").unwrap(), b"hello".to_vec());
    assert_eq!(b58_decode_to_string("Cn8eVZg").unwrap(), "hello");
    assert!(b58_decode("0OIl").is_err());
    assert!(b58_decode(&"1".repeat(200)).is_err());
}

#[test]
fn b58_round_trip_long_inputs() {
    let big = vec![0xffu8; 100];
    let text = b58_encode(&big);
    assert!(text.len() > 128);
    assert_eq!(b58_decode(&text).unwrap(), big);
    let zeros = [vec![0u8; 20], vec![7u8; 60]].concat();
    assert_eq!(b58_decode(&b58_encode(&zeros)).unwrap(), zeros);
    for s in ["", "hello", "héllo wörld ✓", &"long text ".repeat(9)] {
        assert_eq!(b58_decode_to_string(&b58_encode(s.as_bytes())).unwrap(), s);
    }
    assert!(b58_decode_to_string(&b58_encode(&[0xff, 0xfe])).is_err());
}
