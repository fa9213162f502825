use lib_auth::pwd::scheme::{get_scheme, Error as SchemeError, Scheme};
use lib_auth::pwd::{hash_for_scheme, hash_pwd, validate_pwd, ContentToHash, Error, PwdParts, SchemeStatus};

const KEY: &[u8] = b"a process-wide password key, 32+";

fn to_hash(content: &str, salt: u8) -> ContentToHash {
    ContentToHash { content: content.to_string(), salt: [salt; 16] }
}

#[test]
fn hash_then_validate_is_up_to_date() {
    let fx = to_hash("welcome", 7);
    let stored = hash_pwd(KEY, &fx).unwrap();
    assert!(stored.starts_with("#_02_#$argon2id$"));
    assert_eq!(validate_pwd(KEY, &fx, &stored).unwrap(), SchemeStatus::UpToDate);
}

#[test]
fn other_password_is_refused() {
    let stored = hash_pwd(KEY, &to_hash("welcome", 7)).unwrap();
    let e = validate_pwd(KEY, &to_hash("welcome!", 7), &stored).unwrap_err();
    assert_eq!(e, Error::Scheme(SchemeError::PwdValidate));
}

#[test]
fn older_scheme_is_outdated() {
    let fx = to_hash("welcome", 3);
    let stored = hash_for_scheme(Scheme::Scheme01, KEY, &fx).unwrap();
    assert!(stored.starts_with("#_01_#"));
    assert_eq!(validate_pwd(KEY, &fx, &stored).unwrap(), SchemeStatus::Outdated);
    let e = validate_pwd(KEY, &to_hash("welcome", 4), &stored).unwrap_err();
    assert_eq!(e, Error::Scheme(SchemeError::PwdValidate));
}

#[test]
fn scheme01_payload_is_hmac_in_base64url() {
    let fx = to_hash("pwd", 0);
    let h = Scheme::Scheme01.hash(KEY, &fx.content, &fx.salt).unwrap();
    // 64 bytes of HMAC-SHA512 give 86 base64url characters.
    assert_eq!(h.len(), 86);
    assert_ne!(h, "pwd");
    assert!(Scheme::Scheme01.validate(KEY, "pwd", &fx.salt, &h).is_ok());
    assert_eq!(Scheme::Scheme01.validate(KEY, "pwd", &[1; 16], &h), Err(SchemeError::PwdValidate));
}

#[test]
fn malformed_stored_hashes_are_refused() {
    let fx = to_hash("welcome", 1);
    for bad in ["", "#", "#_", "#__#abc", "#_01#abc", "#01_#abc", "_#01_#abc", "#_0-1_#abc", "#_01_", "plain"] {
        assert_eq!(validate_pwd(KEY, &fx, bad).unwrap_err(), Error::PwdWithSchemeFailedParse, "{bad}");
    }
    assert_eq!(validate_pwd(KEY, &fx, "#_03_#abc").unwrap_err(), Error::PwdWithSchemeFailedParse);
}

#[test]
fn stored_hash_parts() {
    let p = PwdParts::parse("#_01_#payload_#x").unwrap();
    assert_eq!(p.scheme_name, "01");
    assert_eq!(p.hashed, "payload_#x");
    let p = PwdParts::parse("#_02_#").unwrap();
    assert_eq!(p.scheme_name, "02");
    assert_eq!(p.hashed, "");
    assert!(PwdParts::parse("#_0_2_#x").is_err());
}

#[test]
fn registry_lookup() {
    assert_eq!(get_scheme("01"), Ok(Scheme::Scheme01));
    assert_eq!(get_scheme("02"), Ok(Scheme::Scheme02));
    assert_eq!(get_scheme("2"), Err(SchemeError::SchemeNotFound("2".to_string())));
    assert_eq!(Scheme::Scheme02.id(), "02");
}

#[test]
fn empty_password_round_trip() {
    let fx = to_hash("", 0);
    let stored = hash_pwd(KEY, &fx).unwrap();
    assert_eq!(validate_pwd(KEY, &fx, &stored).unwrap(), SchemeStatus::UpToDate);
    assert_eq!(validate_pwd(KEY, &to_hash(" ", 0), &stored).unwrap_err(), Error::Scheme(SchemeError::PwdValidate));
}

#[test]
fn other_salt_is_refused() {
    let stored = hash_pwd(KEY, &to_hash("welcome", 1)).unwrap();
    let e = validate_pwd(KEY, &to_hash("welcome", 2), &stored).unwrap_err();
    assert_eq!(e, Error::Scheme(SchemeError::PwdValidate));
}
