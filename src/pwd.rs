//! Password hashing that can move to a new scheme without a migration:
//! a stored hash carries the tag of the scheme that made it, written
//! `#_<tag>_#<payload>`.

pub mod scheme;

use vstd::prelude::*;
use vstd::string::*;

use self::scheme::{get_scheme, latest_scheme, scheme_id_of, scheme_named, scheme_payload, Scheme};

verus! {

pub type Result<T> = core::result::Result<T, Error>;

#[derive(Debug, PartialEq, Eq)]
pub enum Error {
    PwdWithSchemeFailedParse,
    FailSpawnBlockForValidate,
    FailSpawnBlockForHash,
    FailSpawnBlockForSalt,
    Scheme(scheme::Error),
}

/// A clear-text secret and the 128-bit salt it is hashed with.
pub struct ContentToHash {
    pub content: String,
    pub salt: [u8; 16],
}

/// Whether a validated hash was made by the latest scheme.
#[derive(Debug, Clone, Copy, PartialEq, Eq, Structural)]
pub enum SchemeStatus {
    UpToDate,
    Outdated,
}

/// The two parts of a stored hash.
pub struct PwdParts {
    pub scheme_name: String,
    pub hashed: String,
}

/// Characters allowed in a scheme tag.
pub open spec fn is_tag_char(c: char) -> bool {
    ('0' <= c && c <= '9') || ('a' <= c && c <= 'z') || ('A' <= c && c <= 'Z')
}

/// The stored form of a payload under a tag.
pub open spec fn stored_hash_of(id: Seq<char>, payload: Seq<char>) -> Seq<char> {
    seq!['#', '_'] + id + seq!['_', '#'] + payload
}

/// `s` reads `#_<tag>_#<payload>` with the tag ending before index `k`.
pub open spec fn tag_ends_at(s: Seq<char>, k: int) -> bool {
    &&& 2 < k
    &&& k + 2 <= s.len()
    &&& s[0] == '#'
    &&& s[1] == '_'
    &&& s[k] == '_'
    &&& s[k + 1] == '#'
    &&& forall|i: int| 2 <= i < k ==> is_tag_char(#[trigger] s[i])
}

/// The tag and the payload of a stored hash, or `None` where `s` does not
/// read `#_<tag>_#<payload>` with a non-empty alphanumeric tag.
pub open spec fn stored_hash_parts(s: Seq<char>) -> Option<(Seq<char>, Seq<char>)> {
    if exists|k: int| tag_ends_at(s, k) {
        let k = choose|k: int| tag_ends_at(s, k);
        Some((s.subrange(2, k), s.subrange(k + 2, s.len() as int)))
    } else {
        None
    }
}

/// The stored hash that a scheme makes of a password and a salt.
pub open spec fn scheme_stored_hash(s: Scheme, key: Seq<u8>, content: Seq<char>, salt: Seq<u8>) -> Option<Seq<char>> {
    match scheme_payload(s, key, content, salt) {
        Some(p) => Some(stored_hash_of(scheme_id_of(s), p)),
        None => None,
    }
}

/// The outcome of checking a password and a salt against a stored hash.
pub open spec fn validation_of(key: Seq<u8>, content: Seq<char>, salt: Seq<u8>, stored: Seq<char>) -> Result<SchemeStatus> {
    match stored_hash_parts(stored) {
        None => Err(Error::PwdWithSchemeFailedParse),
        Some((id, payload)) => match scheme_named(id) {
            None => Err(Error::PwdWithSchemeFailedParse),
            Some(s) => match scheme_payload(s, key, content, salt) {
                None => Err(Error::Scheme(scheme::Error::Hash)),
                Some(p) => if p != payload {
                    Err(Error::Scheme(scheme::Error::PwdValidate))
                } else if s == latest_scheme() {
                    Ok(SchemeStatus::UpToDate)
                } else {
                    Ok(SchemeStatus::Outdated)
                },
            },
        },
    }
}

/// A tag ends at one place at most, since `_` is no tag character.
pub proof fn lemma_tag_end_unique(s: Seq<char>, k1: int, k2: int)
    requires
        tag_ends_at(s, k1),
        tag_ends_at(s, k2),
    ensures
        k1 == k2,
{
    if k1 < k2 {
        assert(is_tag_char(s[k1]));
    } else if k2 < k1 {
        assert(is_tag_char(s[k2]));
    }
}

/// Parsing a stored hash gives back the tag and the payload it was made of.
pub proof fn lemma_stored_hash_round_trip(id: Seq<char>, payload: Seq<char>)
    requires
        id.len() > 0,
        forall|i: int| 0 <= i < id.len() ==> is_tag_char(#[trigger] id[i]),
    ensures
        stored_hash_parts(stored_hash_of(id, payload)) == Some((id, payload)),
{
    let s = stored_hash_of(id, payload);
    let k: int = id.len() as int + 2;
    assert forall|i: int| 2 <= i < k implies is_tag_char(#[trigger] s[i]) by {
        assert(s[i] == id[i - 2]);
    }
    assert(tag_ends_at(s, k));
    let k2 = choose|k: int| tag_ends_at(s, k);
    lemma_tag_end_unique(s, k, k2);
    assert(s.subrange(2, k) =~= id);
    assert(s.subrange(k + 2, s.len() as int) =~= payload);
}

/// Every registered tag reads back as its scheme.
proof fn lemma_scheme_tag(s: Scheme)
    ensures
        scheme_id_of(s).len() > 0,
        forall|i: int| 0 <= i < scheme_id_of(s).len() ==> is_tag_char(#[trigger] scheme_id_of(s)[i]),
        scheme_named(scheme_id_of(s)) == Some(s),
{
}

/// A stored hash made by a scheme validates with the same password and salt:
/// as up to date where the scheme is the latest, as outdated otherwise.
pub proof fn lemma_validate_own_hash(s: Scheme, key: Seq<u8>, content: Seq<char>, salt: Seq<u8>)
    requires
        scheme_stored_hash(s, key, content, salt) is Some,
    ensures
        validation_of(key, content, salt, scheme_stored_hash(s, key, content, salt)->Some_0) == if s
            == latest_scheme() {
            Ok::<SchemeStatus, Error>(SchemeStatus::UpToDate)
        } else {
            Ok::<SchemeStatus, Error>(SchemeStatus::Outdated)
        },
{
    lemma_scheme_tag(s);
    let p = scheme_payload(s, key, content, salt)->Some_0;
    lemma_stored_hash_round_trip(scheme_id_of(s), p);
}

/// Round trip: a password validates as up to date against the hash that
/// the latest scheme made of it with the same salt.
pub proof fn lemma_hash_then_validate(key: Seq<u8>, content: Seq<char>, salt: Seq<u8>)
    requires
        scheme_stored_hash(latest_scheme(), key, content, salt) is Some,
    ensures
        validation_of(key, content, salt, scheme_stored_hash(latest_scheme(), key, content, salt)->Some_0)
            == Ok::<SchemeStatus, Error>(SchemeStatus::UpToDate),
{
    lemma_validate_own_hash(latest_scheme(), key, content, salt);
}

/// A hash made by a scheme other than the latest validates as outdated.
pub proof fn lemma_older_scheme_outdated(s: Scheme, key: Seq<u8>, content: Seq<char>, salt: Seq<u8>)
    requires
        s != latest_scheme(),
        scheme_stored_hash(s, key, content, salt) is Some,
    ensures
        validation_of(key, content, salt, scheme_stored_hash(s, key, content, salt)->Some_0)
            == Ok::<SchemeStatus, Error>(SchemeStatus::Outdated),
{
    lemma_validate_own_hash(s, key, content, salt);
}

/// Another password, with the same salt, is refused as not matching, for
/// every pair of passwords whose payloads under the scheme differ (that is,
/// but for a collision of the hash function).
pub proof fn lemma_other_password_refused(
    s: Scheme,
    key: Seq<u8>,
    content: Seq<char>,
    other: Seq<char>,
    salt: Seq<u8>,
)
    requires
        scheme_stored_hash(s, key, content, salt) is Some,
        scheme_payload(s, key, other, salt) is Some,
        scheme_payload(s, key, other, salt) != scheme_payload(s, key, content, salt),
    ensures
        validation_of(key, other, salt, scheme_stored_hash(s, key, content, salt)->Some_0)
            == Err::<SchemeStatus, Error>(Error::Scheme(scheme::Error::PwdValidate)),
{
    lemma_scheme_tag(s);
    let p = scheme_payload(s, key, content, salt)->Some_0;
    lemma_stored_hash_round_trip(scheme_id_of(s), p);
}

impl PwdParts {
    /// Splits a stored hash into its tag and its payload.
    pub fn parse(pwd_with_scheme: &str) -> (r: Result<PwdParts>)
        ensures
            match stored_hash_parts(pwd_with_scheme@) {
                Some((id, payload)) => r matches Ok(p) && p.scheme_name@ == id && p.hashed@ == payload,
                None => r matches Err(Error::PwdWithSchemeFailedParse),
            },
    {
        let ghost s = pwd_with_scheme@;
        let n = pwd_with_scheme.unicode_len();
        if n < 2 || pwd_with_scheme.get_char(0) != '#' || pwd_with_scheme.get_char(1) != '_' {
            return Err(Error::PwdWithSchemeFailedParse);
        }
        let mut k: usize = 2;
        while k < n && is_tag_char_exec(pwd_with_scheme.get_char(k))
            invariant
                s == pwd_with_scheme@,
                n == s.len(),
                2 <= k <= n,
                forall|i: int| 2 <= i < k ==> is_tag_char(#[trigger] s[i]),
            decreases n - k,
        {
            k = k + 1;
        }
        if k == 2 || k >= n - 1 || pwd_with_scheme.get_char(k) != '_' || pwd_with_scheme.get_char(k + 1) != '#' {
            proof {
                assert forall|j: int| !tag_ends_at(s, j) by {
                    if tag_ends_at(s, j) {
                        if j < k {
                            assert(is_tag_char(s[j]));
                        } else if j > k {
                            assert(is_tag_char(s[k as int]));
                        }
                    }
                }
            }
            return Err(Error::PwdWithSchemeFailedParse);
        }
        proof {
            assert(tag_ends_at(s, k as int));
            let k2 = choose|j: int| tag_ends_at(s, j);
            lemma_tag_end_unique(s, k as int, k2);
        }
        Ok(PwdParts {
            scheme_name: pwd_with_scheme.substring_char(2, k).to_owned(),
            hashed: pwd_with_scheme.substring_char(k + 2, n).to_owned(),
        })
    }
}

/// Hashes a password with a given scheme and writes the stored form.
pub fn hash_for_scheme(scheme: Scheme, key: &[u8], to_hash: &ContentToHash) -> (r: Result<String>)
    ensures
        match scheme_stored_hash(scheme, key@, to_hash.content@, to_hash.salt@) {
            Some(h) => r matches Ok(s) && s@ == h,
            None => r == Err::<String, Error>(Error::Scheme(scheme::Error::Hash)),
        },
{
    let payload = match scheme.hash(key, to_hash.content.as_str(), to_hash.salt.as_slice()) {
        Ok(p) => p,
        Err(e) => return Err(Error::Scheme(e)),
    };
    Ok(stored_hash_string(scheme.id(), payload.as_str()))
}

/// Hashes a password with the latest scheme.
pub fn hash_pwd(key: &[u8], to_hash: &ContentToHash) -> (r: Result<String>)
    ensures
        match scheme_stored_hash(latest_scheme(), key@, to_hash.content@, to_hash.salt@) {
            Some(h) => r matches Ok(s) && s@ == h,
            None => r == Err::<String, Error>(Error::Scheme(scheme::Error::Hash)),
        },
{
    hash_for_scheme(Scheme::Scheme02, key, to_hash)
}

/// Checks a password against a stored hash, with the scheme that the stored
/// hash names, and tells whether that scheme is the latest.
pub fn validate_pwd(key: &[u8], to_hash: &ContentToHash, pwd_ref: &str) -> (r: Result<SchemeStatus>)
    ensures
        r == validation_of(key@, to_hash.content@, to_hash.salt@, pwd_ref@),
{
    let parts = PwdParts::parse(pwd_ref)?;
    let scheme = match get_scheme(parts.scheme_name.as_str()) {
        Ok(s) => s,
        Err(_) => return Err(Error::PwdWithSchemeFailedParse),
    };
    match scheme.validate(key, to_hash.content.as_str(), to_hash.salt.as_slice(), parts.hashed.as_str()) {
        Ok(()) => {},
        Err(e) => return Err(Error::Scheme(e)),
    }
    match scheme {
        Scheme::Scheme02 => Ok(SchemeStatus::UpToDate),
        Scheme::Scheme01 => Ok(SchemeStatus::Outdated),
    }
}

fn stored_hash_string(id: &str, payload: &str) -> (r: String)
    ensures
        r@ == stored_hash_of(id@, payload@),
{
    let mut r = "#_".to_owned();
    r.append(id);
    r.append("_#");
    r.append(payload);
    proof {
        reveal_strlit("#_");
        reveal_strlit("_#");
        assert(r@ =~= stored_hash_of(id@, payload@));
    }
    r
}

fn is_tag_char_exec(c: char) -> (r: bool)
    ensures
        r == is_tag_char(c),
{
    ('0' <= c && c <= '9') || ('a' <= c && c <= 'z') || ('A' <= c && c <= 'Z')
}

} // verus!
