//! The identity on whose behalf an operation runs.

use vstd::prelude::*;

use crate::text::str_eq;

verus! {

pub type Result<T> = core::result::Result<T, Error>;

#[derive(Debug, PartialEq, Eq)]
pub enum Error {
    CtxCannotNewRootCtx,
}

#[derive(Clone, Debug)]
pub struct Ctx {
    user_id: String,
}

impl View for Ctx {
    type V = Seq<char>;

    /// The user id.
    closed spec fn view(&self) -> Seq<char> {
        self.user_id@
    }
}

impl Ctx {
    /// The context of the system itself.
    pub fn root_ctx() -> (r: Ctx)
        ensures
            r@ == "root"@,
    {
        Ctx { user_id: "root".to_owned() }
    }

    /// The context of command-line tools.
    pub fn cli_ctx() -> (r: Ctx)
        ensures
            r@ == "cli"@,
    {
        Ctx { user_id: "cli".to_owned() }
    }

    /// A context for a user; the root identity cannot be claimed this way.
    pub fn new(user_id: &str) -> (r: Result<Ctx>)
        ensures
            user_id@ == "root"@ ==> r == Err::<Ctx, Error>(Error::CtxCannotNewRootCtx),
            user_id@ != "root"@ ==> (r matches Ok(c) && c@ == user_id@),
    {
        if str_eq("root", user_id) {
            Err(Error::CtxCannotNewRootCtx)
        } else {
            Ok(Ctx { user_id: user_id.to_owned() })
        }
    }

    pub fn user_id(&self) -> (r: &str)
        ensures
            r@ == self@,
    {
        self.user_id.as_str()
    }
}

} // verus!
