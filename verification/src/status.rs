//! HTTP status codes.

use crate::text;
use vstd::prelude::*;
use vstd::string::*;

verus! {

/// The reason phrase of a status, where one is registered.
pub uninterp spec fn reason_of(status: u16) -> Option<Seq<char>>;

/// `http::StatusCode::canonical_reason`, for a status given by its number. The
/// phrases of the statuses this library answers with are stated, the others
/// named.
#[verifier::external_body]
pub(crate) fn canonical_reason(status: u16) -> (reason: Option<String>)
    ensures
        text::opt(reason) == reason_of(status),
        status == 200 ==> text::opt(reason) == Some("OK"@),
        status == 400 ==> text::opt(reason) == Some("Bad Request"@),
        status == 401 ==> text::opt(reason) == Some("Unauthorized"@),
        status == 403 ==> text::opt(reason) == Some("Forbidden"@),
        status == 404 ==> text::opt(reason) == Some("Not Found"@),
        status == 405 ==> text::opt(reason) == Some("Method Not Allowed"@),
        status == 409 ==> text::opt(reason) == Some("Conflict"@),
        status == 413 ==> text::opt(reason) == Some("Payload Too Large"@),
        status == 415 ==> text::opt(reason) == Some("Unsupported Media Type"@),
        status == 422 ==> text::opt(reason) == Some("Unprocessable Entity"@),
        status == 429 ==> text::opt(reason) == Some("Too Many Requests"@),
        status == 500 ==> text::opt(reason) == Some("Internal Server Error"@),
        status == 504 ==> text::opt(reason) == Some("Gateway Timeout"@),
{
    http::StatusCode::from_u16(status).ok().and_then(|code| code.canonical_reason()).map(str::to_owned)
}

/// The phrase for a status, or `Error` where none is registered.
pub open spec fn phrase(status: u16) -> Seq<char> {
    match reason_of(status) {
        Some(reason) => reason,
        None => "Error"@,
    }
}

/// The phrase for a status, or `Error` where none is registered.
pub fn status_phrase(status: u16) -> (out: String)
    ensures
        out@ == phrase(status),
{
    match canonical_reason(status) {
        Some(reason) => reason,
        None => "Error".to_owned(),
    }
}

} // verus!
