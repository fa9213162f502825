//! The closed set of password-hashing schemes, each named by a short tag.

use argon2::password_hash::{PasswordHasher, SaltString};
use argon2::{Algorithm, Argon2, Params, Version};
use vstd::prelude::*;
use vstd::string::*;
use vstd::utf8::*;

use crate::b64::{b64u_encode, b64u_of};
use crate::mac::{constant_time_eq, hmac_sha512, hmac_sha512_of};
use crate::text::{concat_bytes, str_is_pair};

verus! {

pub type Result<T> = core::result::Result<T, Error>;

#[derive(Debug, PartialEq, Eq)]
pub enum Error {
    Key,
    Salt,
    Hash,
    PwdValidate,
    SchemeNotFound(String),
}

/// The registered schemes; adding one is a change of this type.
#[derive(Debug, Clone, Copy, PartialEq, Eq, Structural)]
pub enum Scheme {
    /// HMAC-SHA512 over the password and the salt, keyed with the secret.
    Scheme01,
    /// Argon2id keyed with the secret, the salt as its salt.
    Scheme02,
}

/// The scheme that new hashes are made with.
pub open spec fn latest_scheme() -> Scheme {
    Scheme::Scheme02
}

/// The tag that names a scheme in a stored hash.
pub open spec fn scheme_id_of(s: Scheme) -> Seq<char> {
    match s {
        Scheme::Scheme01 => seq!['0', '1'],
        Scheme::Scheme02 => seq!['0', '2'],
    }
}

/// The scheme that a tag names, if any.
pub open spec fn scheme_named(id: Seq<char>) -> Option<Scheme> {
    if id == scheme_id_of(Scheme::Scheme01) {
        Some(Scheme::Scheme01)
    } else if id == scheme_id_of(Scheme::Scheme02) {
        Some(Scheme::Scheme02)
    } else {
        None
    }
}

/// The PHC string of Argon2id (version 0x13, default parameters) keyed with
/// `secret`, over `pwd` and `salt`; `None` where Argon2 refuses the input.
pub uninterp spec fn argon2id_phc_of(secret: Seq<u8>, pwd: Seq<u8>, salt: Seq<u8>) -> Option<Seq<char>>;

/// The payload that a scheme computes for a password (as text) and a salt;
/// `None` where the underlying primitive refuses the input.
pub open spec fn scheme_payload(s: Scheme, key: Seq<u8>, content: Seq<char>, salt: Seq<u8>) -> Option<Seq<char>> {
    match s {
        Scheme::Scheme01 => Some(b64u_of(hmac_sha512_of(key, encode_utf8(content) + salt))),
        Scheme::Scheme02 => argon2id_phc_of(key, encode_utf8(content), salt),
    }
}

/// Relies on `argon2`: `Argon2::new_with_secret` (Argon2id, version 0x13,
/// default parameters), `SaltString::encode_b64` and `hash_password`, whose
/// PHC string depends on the secret, the password and the salt alone.
#[verifier::external_body]
fn argon2id_phc(secret: &[u8], pwd: &[u8], salt: &[u8]) -> (r: Option<String>)
    ensures
        r matches Some(h) ==> argon2id_phc_of(secret@, pwd@, salt@) == Some(h@),
        r is None ==> argon2id_phc_of(secret@, pwd@, salt@) is None,
{
    let argon2 = Argon2::new_with_secret(secret, Algorithm::Argon2id, Version::V0x13, Params::default()).ok()?;
    let salt = SaltString::encode_b64(salt).ok()?;
    argon2.hash_password(pwd, &salt).ok().map(|h| h.to_string())
}

/// Looks a scheme up by its tag.
pub fn get_scheme(scheme_name: &str) -> (r: Result<Scheme>)
    ensures
        match scheme_named(scheme_name@) {
            Some(s) => r == Ok::<Scheme, Error>(s),
            None => r matches Err(Error::SchemeNotFound(n)) && n@ == scheme_name@,
        },
{
    if str_is_pair(scheme_name, '0', '1') {
        Ok(Scheme::Scheme01)
    } else if str_is_pair(scheme_name, '0', '2') {
        Ok(Scheme::Scheme02)
    } else {
        Err(Error::SchemeNotFound(scheme_name.to_owned()))
    }
}

impl Scheme {
    /// The tag of this scheme.
    pub fn id(&self) -> (r: &'static str)
        ensures
            r@ == scheme_id_of(*self),
    {
        match self {
            Scheme::Scheme01 => {
                proof {
                    reveal_strlit("01");
                }
                "01"
            },
            Scheme::Scheme02 => {
                proof {
                    reveal_strlit("02");
                }
                "02"
            },
        }
    }

    /// Hashes `content` with `salt` under this scheme, keyed with `key`.
    pub fn hash(&self, key: &[u8], content: &str, salt: &[u8]) -> (r: Result<String>)
        ensures
            match scheme_payload(*self, key@, content@, salt@) {
                Some(p) => r matches Ok(h) && h@ == p,
                None => r == Err::<String, Error>(Error::Hash),
            },
    {
        let pwd = content.as_bytes();
        match self {
            Scheme::Scheme01 => {
                let msg = concat_bytes(pwd, salt);
                match hmac_sha512(key, msg.as_slice()) {
                    Some(tag) => Ok(b64u_encode(tag.as_slice())),
                    None => Err(Error::Key),
                }
            },
            Scheme::Scheme02 => match argon2id_phc(key, pwd, salt) {
                Some(h) => Ok(h),
                None => Err(Error::Hash),
            },
        }
    }

    /// Checks `content` with `salt` against a payload made by this scheme: the
    /// payload is computed again and compared in fixed time.
    pub fn validate(&self, key: &[u8], content: &str, salt: &[u8], pwd_ref: &str) -> (r: Result<()>)
        ensures
            match scheme_payload(*self, key@, content@, salt@) {
                Some(p) => if p == pwd_ref@ {
                    r is Ok
                } else {
                    r == Err::<(), Error>(Error::PwdValidate)
                },
                None => r == Err::<(), Error>(Error::Hash),
            },
    {
        let hashed = match self.hash(key, content, salt) {
            Ok(h) => h,
            Err(e) => return Err(e),
        };
        proof {
            encode_utf8_decode_utf8(hashed@);
            encode_utf8_decode_utf8(pwd_ref@);
        }
        if constant_time_eq(hashed.as_str().as_bytes(), pwd_ref.as_bytes()) {
            Ok(())
        } else {
            Err(Error::PwdValidate)
        }
    }
}

} // verus!
