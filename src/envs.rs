//! Settings read from the environment: what to do with a missing one, and
//! how to read one as base64url bytes. The lookup itself belongs to the caller.

use vstd::prelude::*;

use crate::b64::{b64u_decode, b64u_of};

verus! {

pub type Result<T> = core::result::Result<T, Error>;

#[derive(Debug, PartialEq, Eq)]
pub enum Error {
    MissingEnv(&'static str),
    WrongFormat(&'static str),
}

/// Replaces a missing setting with the type's default.
pub trait DefaultIfMissing<T>: Sized {
    fn default_if_missing(self) -> Result<T>;
}

/// Replaces a missing setting with a given value.
pub trait IfMissing<T>: Sized {
    fn if_missing(self, value: T) -> Result<T>;
}

impl<T: Default> DefaultIfMissing<T> for Result<T> {
    fn default_if_missing(self) -> (r: Result<T>)
        ensures
            self matches Err(Error::MissingEnv(_)) ==> (r matches Ok(v) && call_ensures(T::default, (), v)),
            !(self matches Err(Error::MissingEnv(_))) ==> r == self,
    {
        match self {
            Err(Error::MissingEnv(_)) => Ok(T::default()),
            _ => self,
        }
    }
}

impl<T> IfMissing<T> for Result<T> {
    fn if_missing(self, value: T) -> (r: Result<T>)
        ensures
            self matches Err(Error::MissingEnv(_)) ==> r == Ok::<T, Error>(value),
            !(self matches Err(Error::MissingEnv(_))) ==> r == self,
    {
        match self {
            Err(Error::MissingEnv(_)) => Ok(value),
            _ => self,
        }
    }
}

/// Reads the value of setting `name` (as the caller looked it up) as
/// base64url bytes.
pub fn get_env_b64u_as_u8s(name: &'static str, value: Result<String>) -> (r: Result<Vec<u8>>)
    ensures
        match value {
            Err(e) => r == Err::<Vec<u8>, Error>(e),
            Ok(s) => if exists|b: Seq<u8>| b64u_of(b) == s@ {
                r matches Ok(v) && b64u_of(v@) == s@
            } else {
                r == Err::<Vec<u8>, Error>(Error::WrongFormat(name))
            },
        },
{
    let s = value?;
    match b64u_decode(s.as_str()) {
        Ok(v) => Ok(v),
        Err(_) => Err(Error::WrongFormat(name)),
    }
}

} // verus!
