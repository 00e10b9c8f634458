//! What the HTTP interface decides: which requests it refuses, what a request stores, and what it
//! answers.

use vstd::prelude::*;

use crate::text;

pub mod backup;
pub mod channels;
pub mod incidents;
pub mod maintenance;
pub mod monitors;
pub mod reports;
pub mod settings;
pub mod sse;
pub mod static_assets;

verus! {

/// A refused request: its HTTP status and the message of its body.
#[derive(Clone, Debug)]
pub struct ApiError {
    pub status: u16,
    pub message: String,
}

/// The status of a request that names nothing that exists.
pub const NOT_FOUND: u16 = 404;

/// The status of a request that cannot be understood.
pub const BAD_REQUEST: u16 = 400;

/// The status of a request whose values are refused.
pub const UNPROCESSABLE: u16 = 422;

/// The status of a request that failed on this side.
pub const INTERNAL_ERROR: u16 = 500;

/// `e` refuses a request with a status and a message.
pub open spec fn refuses(e: ApiError, status: u16, message: Seq<char>) -> bool {
    e.status == status && e.message@ == message
}

/// A request for something that does not exist.
pub fn not_found(what: &str) -> (r: ApiError)
    ensures
        refuses(r, NOT_FOUND, what@ + " not found"@),
{
    let mut message = text::own(what);
    message.append(" not found");
    ApiError { status: NOT_FOUND, message }
}

/// A request whose values are refused.
pub fn invalid(message: String) -> (r: ApiError)
    ensures
        refuses(r, UNPROCESSABLE, message@),
{
    ApiError { status: UNPROCESSABLE, message }
}

/// A request that cannot be understood.
pub fn bad(message: String) -> (r: ApiError)
    ensures
        refuses(r, BAD_REQUEST, message@),
{
    ApiError { status: BAD_REQUEST, message }
}

/// A request that failed on this side.
pub fn ise(message: String) -> (r: ApiError)
    ensures
        refuses(r, INTERNAL_ERROR, message@),
{
    ApiError { status: INTERNAL_ERROR, message }
}

/// Requests are refused with the status that HTTP has for the reason.
pub proof fn law_statuses_of_refusals(e: ApiError, message: Seq<char>)
    ensures
        refuses(e, NOT_FOUND, message) ==> e.status == 404 && e.message@ == message,
        refuses(e, BAD_REQUEST, message) ==> e.status == 400 && e.message@ == message,
        refuses(e, UNPROCESSABLE, message) ==> e.status == 422 && e.message@ == message,
        refuses(e, INTERNAL_ERROR, message) ==> e.status == 500 && e.message@ == message,
{
}

} // verus!
