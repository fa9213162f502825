use lib_auth::b64::b64u_encode;
use lib_auth::time::TimeRfc3339;
use lib_auth::token::{
    generate_token_at, generate_web_token, parse_and_verify, parse_and_verify_at, parse_and_verify_with,
    token_sign_into_b64u,
    validate_token_at, validate_web_token, Error, Token,
};

const KEY: &[u8] = b"the process-wide token signing key";
const SALT: [u8; 16] = [9; 16];
const NOW: TimeRfc3339 = TimeRfc3339 { secs: 1_700_000_000, nanos: 0 };

fn issue(ident: &str, ttl: i64) -> String {
    generate_token_at(ident, &NOW, ttl, &SALT, KEY).unwrap().to_string()
}

fn flip(token: &str, index: usize) -> String {
    let mut bytes = token.as_bytes().to_vec();
    bytes[index] ^= 0x01;
    String::from_utf8(bytes).unwrap()
}

#[test]
fn token_round_trip_u1() {
    let t = issue("U1", 60);
    assert_eq!(parse_and_verify_at(&t, &SALT, KEY, &NOW).unwrap(), "U1");
}

#[test]
fn token_round_trip_with_clock() {
    let t = generate_web_token("U1", 60, &SALT, KEY).unwrap();
    assert_eq!(t.ident, "U1");
    assert!(validate_web_token(&t, &SALT, KEY).is_ok());
    assert_eq!(parse_and_verify(&t.to_string(), &SALT, KEY).unwrap(), "U1");
}

#[test]
fn token_text_layout() {
    let t = generate_token_at("U1", &NOW, 60, &SALT, KEY).unwrap();
    assert_eq!(t.exp, "2023-11-14T22:14:20+00:00");
    let text = t.to_string();
    let parts: Vec<&str> = text.split('.').collect();
    assert_eq!(parts.len(), 3);
    assert_eq!(parts[0], b64u_encode(b"U1"));
    assert_eq!(parts[1], b64u_encode(t.exp.as_bytes()));
    assert_eq!(parts[2], t.sign_b64u);
    assert_eq!(t.sign_b64u, token_sign_into_b64u("U1", &t.exp, &SALT, KEY).unwrap());
    assert!(!text.contains('='));
}

#[test]
fn token_expiry_boundary() {
    let t = issue("U1", 0);
    let at_expiry = NOW;
    let one_ms_later = TimeRfc3339 { secs: NOW.secs, nanos: 1_000_000 };
    assert_eq!(parse_and_verify_at(&t, &SALT, KEY, &at_expiry).unwrap(), "U1");
    assert_eq!(parse_and_verify_at(&t, &SALT, KEY, &one_ms_later).unwrap_err(), Error::Expired);
}

#[test]
fn token_expired_after_ttl() {
    let t = issue("U1", 60);
    let later = TimeRfc3339 { secs: NOW.secs + 61, nanos: 0 };
    assert_eq!(parse_and_verify_at(&t, &SALT, KEY, &later).unwrap_err(), Error::Expired);
}

#[test]
fn token_tampered_signature() {
    let t = issue("U1", 60);
    let start = t.rfind('.').unwrap() + 1;
    for i in start..t.len() {
        let e = parse_and_verify_at(&flip(&t, i), &SALT, KEY, &NOW).unwrap_err();
        assert_eq!(e, Error::SignatureNotMatching, "byte {i}");
    }
}

#[test]
fn token_tampered_ident() {
    let t = issue("U1", 60);
    let end = t.find('.').unwrap();
    for i in 0..end {
        let e = parse_and_verify_at(&flip(&t, i), &SALT, KEY, &NOW).unwrap_err();
        assert!(matches!(e, Error::CannotDecodeIdent | Error::SignatureNotMatching), "byte {i}: {e:?}");
    }
}

#[test]
fn token_tampered_exp() {
    let t = issue("U1", 60);
    let start = t.find('.').unwrap() + 1;
    let end = t.rfind('.').unwrap();
    for i in start..end {
        let e = parse_and_verify_at(&flip(&t, i), &SALT, KEY, &NOW).unwrap_err();
        assert!(
            matches!(e, Error::CannotDecodeExp | Error::ExpNotIso | Error::SignatureNotMatching),
            "byte {i}: {e:?}"
        );
    }
}

#[test]
fn token_salt_rotation_revokes() {
    let t = issue("U1", 60);
    let new_salt = [10; 16];
    assert_eq!(parse_and_verify_at(&t, &new_salt, KEY, &NOW).unwrap_err(), Error::SignatureNotMatching);
}

#[test]
fn token_other_key_refused() {
    let t = issue("U1", 60);
    assert_eq!(parse_and_verify_at(&t, &SALT, b"another key", &NOW).unwrap_err(), Error::SignatureNotMatching);
}

#[test]
fn token_invalid_format() {
    for bad in ["", "abc", "a.b", "a.b.c.d", ".b.c", "a..c", "a.b.", "..", "a.b.c."] {
        assert_eq!(Token::parse(bad).unwrap_err(), Error::InvalidFormat, "{bad}");
    }
}

#[test]
fn token_undecodable_segments() {
    let exp = b64u_encode(b"2023-11-14T22:14:20+00:00");
    assert_eq!(Token::parse(&format!("a=.{exp}.sig")).unwrap_err(), Error::CannotDecodeIdent);
    assert_eq!(Token::parse(&format!("{}.{exp}.sig", b64u_encode(&[0xff]))).unwrap_err(), Error::CannotDecodeIdent);
    assert_eq!(Token::parse("VTE.*.sig").unwrap_err(), Error::CannotDecodeExp);
    let t = Token::parse(&format!("VTE.{}.sig", b64u_encode(b"tomorrow"))).unwrap();
    assert_eq!(t.ident, "U1");
    assert_eq!(validate_token_at(&t, &SALT, KEY, &NOW).unwrap_err(), Error::ExpNotIso);
}

#[test]
fn token_clock_overflow() {
    let e = generate_token_at("U1", &NOW, i64::MAX, &SALT, KEY).unwrap_err();
    assert!(matches!(e, Error::TimeOutOfRange(_)));
}

#[test]
fn token_round_trip_with_salt_lookup() {
    let t = issue("U1", 60);
    let lookup = |id: &str| if id == "U1" { SALT } else { [0; 16] };
    assert_eq!(parse_and_verify_with(&t, lookup, KEY, &NOW).unwrap(), "U1");
    let rotated = |_: &str| [1; 16];
    assert_eq!(parse_and_verify_with(&t, rotated, KEY, &NOW).unwrap_err(), Error::SignatureNotMatching);
    assert_eq!(parse_and_verify_with("a.b", lookup, KEY, &NOW).unwrap_err(), Error::InvalidFormat);
}
