use vstd::prelude::*;

verus! {

/// Accounts of the chain, identified by an integer.
pub type AccountId = u64;

/// Who dispatched a call.
#[derive(Clone, Copy, Debug, PartialEq, Eq)]
pub enum Origin {
    Signed(AccountId),
    Root,
    Unsigned,
}

/// Why a dispatched call was refused.
#[derive(Clone, Copy, Debug, PartialEq, Eq)]
pub enum DispatchError {
    /// The call was not signed by an account.
    BadOrigin,
    /// A request (or result) with this id is already known.
    ReqIdExists,
    /// A result is already stored for this id.
    ResultExists,
    /// No pending request has this id.
    ReqIdNotFound,
    /// The ticker has already been created.
    TickerExists,
    /// The ticker has not been created.
    TickerNotFound,
    /// Another module refused the call, with its message.
    Module(&'static str),
}

impl DispatchError {
    /// The message the chain reports for the error.
    pub fn message(&self) -> (r: &'static str)
        ensures
            *self == DispatchError::BadOrigin ==> r@ == "bad origin: expected to be a signed origin"@,
            *self == DispatchError::ReqIdExists ==> r@ == "req id exists"@,
            *self == DispatchError::ResultExists ==> r@ == "result exists for the req id"@,
            *self == DispatchError::ReqIdNotFound ==> r@ == "req id does not exist"@,
            *self == DispatchError::TickerExists ==> r@ == "ticker already exists"@,
            *self == DispatchError::TickerNotFound ==> r@ == "ticker does not exist!"@,
            (*self matches DispatchError::Module(m) ==> r@ == m@),
    {
        match self {
            DispatchError::BadOrigin => "bad origin: expected to be a signed origin",
            DispatchError::ReqIdExists => "req id exists",
            DispatchError::ResultExists => "result exists for the req id",
            DispatchError::ReqIdNotFound => "req id does not exist",
            DispatchError::TickerExists => "ticker already exists",
            DispatchError::TickerNotFound => "ticker does not exist!",
            DispatchError::Module(m) => m,
        }
    }
}

/// The account that signed `origin`, if any.
pub open spec fn signer_of(origin: Origin) -> Option<AccountId> {
    match origin {
        Origin::Signed(who) => Some(who),
        _ => None,
    }
}

/// The signing account of a call; any other origin is refused.
pub fn ensure_signed(origin: Origin) -> (r: Result<AccountId, DispatchError>)
    ensures
        match signer_of(origin) {
            Some(who) => r == Ok::<AccountId, DispatchError>(who),
            None => r == Err::<AccountId, DispatchError>(DispatchError::BadOrigin),
        },
{
    match origin {
        Origin::Signed(who) => Ok(who),
        _ => Err(DispatchError::BadOrigin),
    }
}

} // verus!
