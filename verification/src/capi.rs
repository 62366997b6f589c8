//! Result codes of the C interface.
use vstd::prelude::*;

verus! {

/// The outcome of a call through the C interface.
#[derive(Clone, Copy, Debug, PartialEq, Eq, Structural)]
pub enum ApiResult {
    Success,
    GenericError,
    NullHandleError,
    InvalidArgument,
    MutexFailError,
}

/// The C value of each outcome: zero for success, a distinct negative
/// number for each error.
pub open spec fn api_code(r: ApiResult) -> int {
    match r {
        ApiResult::Success => 0,
        ApiResult::GenericError => -1,
        ApiResult::NullHandleError => -2,
        ApiResult::InvalidArgument => -3,
        ApiResult::MutexFailError => -4,
    }
}

impl ApiResult {
    /// The C value of the outcome.
    pub fn code(self) -> (r: i32)
        ensures
            r as int == api_code(self),
    {
        match self {
            ApiResult::Success => 0,
            ApiResult::GenericError => -1,
            ApiResult::NullHandleError => -2,
            ApiResult::InvalidArgument => -3,
            ApiResult::MutexFailError => -4,
        }
    }
}

/// The outcome of registering a handler through the C interface.
///
/// `text_ok` says whether the address and the type string were readable
/// text, `has_server` whether the server handle was given, and `registered`
/// whether the server took the handler. Unreadable text is refused before
/// anything else, a missing server next; a server that does not take the
/// handler is reported as a failed lock.
pub fn registration_result(text_ok: bool, has_server: bool, registered: bool) -> (r: ApiResult)
    ensures
        !text_ok ==> r == ApiResult::InvalidArgument,
        text_ok && !has_server ==> r == ApiResult::NullHandleError,
        text_ok && has_server && registered ==> r == ApiResult::Success,
        text_ok && has_server && !registered ==> r == ApiResult::MutexFailError,
{
    if !text_ok {
        ApiResult::InvalidArgument
    } else if !has_server {
        ApiResult::NullHandleError
    } else if registered {
        ApiResult::Success
    } else {
        ApiResult::MutexFailError
    }
}

/// Success is zero, every error is negative, and no two outcomes share a
/// value.
pub proof fn lemma_api_codes(a: ApiResult, b: ApiResult)
    ensures
        (api_code(a) == 0) == (a == ApiResult::Success),
        api_code(a) <= 0,
        api_code(a) == api_code(b) ==> a == b,
{
}

} // verus!
