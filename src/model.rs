//! The user records that the identity service keeps, and the derivation of
//! a new user id from random bytes. Storage itself belongs to the caller.

use vstd::prelude::*;

use crate::b58::{b58_encode, b58_of};
use crate::text::str_eq;

verus! {

#[derive(Clone, Copy, Debug, PartialEq, Eq, Structural)]
pub enum UserTyp {
    Sys,
    User,
    UnVarifiedUser,
}

#[derive(Clone, Debug)]
pub struct User {
    pub user_id: String,
    pub name: String,
    pub email: String,
    pub typ: String,
}

/// Fields required for creating a new user.
pub struct UserForCreate {
    pub name: String,
    pub email: String,
    pub pwd_clear: String,
}

/// A unique constraint that a write broke.
pub struct UniqueViolation {
    pub table: String,
    pub constraint: String,
}

/// The code that PostgreSQL gives a unique violation.
pub open spec fn unique_violation_code() -> Seq<char> {
    seq!['2', '3', '5', '0', '5']
}

/// Reads a database error, given as its code, table and constraint, as a
/// unique violation: code `23505` with both names present.
pub fn resolve_unique_violation(code: Option<&str>, table: Option<&str>, constraint: Option<&str>) -> (r: Option<
    UniqueViolation,
>)
    ensures
        match (code, table, constraint) {
            (Some(c), Some(t), Some(k)) => if c@ == unique_violation_code() {
                r matches Some(u) && u.table@ == t@ && u.constraint@ == k@
            } else {
                r is None
            },
            _ => r is None,
        },
{
    match (code, table, constraint) {
        (Some(c), Some(t), Some(k)) => {
            let code_23505 = "23505";
            proof {
                reveal_strlit("23505");
                assert(code_23505@ =~= unique_violation_code());
            }
            if str_eq(c, code_23505) {
                Some(UniqueViolation { table: t.to_owned(), constraint: k.to_owned() })
            } else {
                None
            }
        },
        _ => None,
    }
}

pub struct UserBmc;

/// The upper-case form of a text.
pub uninterp spec fn upper_of(s: Seq<char>) -> Seq<char>;

/// Relies on `str::to_uppercase`: the result depends on the characters alone.
#[verifier::external_body]
fn to_uppercase(s: &str) -> (r: String)
    ensures
        r@ == upper_of(s@),
{
    s.to_uppercase()
}

/// The user id drawn from random bytes: the first ten characters of their
/// base58 text, in upper case.
pub open spec fn user_id_of(key: Seq<u8>) -> Seq<char> {
    let t = b58_of(key);
    upper_of(if t.len() <= 10 { t } else { t.subrange(0, 10) })
}

impl UserBmc {
    /// Derives a new user id from 64 random bytes.
    pub fn generate_user_id(key: &[u8; 64]) -> (r: String)
        ensures
            r@ == user_id_of(key@),
    {
        let t = b58_encode(key.as_slice());
        let n = t.as_str().unicode_len();
        let head = if n <= 10 {
            t.as_str()
        } else {
            t.as_str().substring_char(0, 10)
        };
        to_uppercase(head)
    }
}

} // verus!
