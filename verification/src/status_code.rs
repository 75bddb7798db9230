//! The closed set of status codes the server emits, with their wire text.

use vstd::prelude::*;
use vstd::string::*;

verus! {

/// A semantic status code.  Each maps to a fixed numeric value and
/// canonical reason phrase; see [`spec_status_text`].
#[derive(Clone, Copy, Debug, PartialEq, Eq, Structural)]
pub enum StatusCode {
    Okay,
    BadRequest,
    NotFound,
}

/// The numeric value and reason phrase of a status code, exactly as they
/// appear in the response status line.
pub open spec fn spec_status_text(code: StatusCode) -> Seq<char> {
    match code {
        StatusCode::Okay => "200 OK"@,
        StatusCode::BadRequest => "400 Bad Request"@,
        StatusCode::NotFound => "404 Not Found"@,
    }
}

impl StatusCode {
    /// The `<numeric-code> <reason-phrase>` text for this code.
    pub fn to_response(self) -> (text: String)
        ensures
            text@ == spec_status_text(self),
    {
        match self {
            StatusCode::Okay => String::from_str("200 OK"),
            StatusCode::BadRequest => String::from_str("400 Bad Request"),
            StatusCode::NotFound => String::from_str("404 Not Found"),
        }
    }
}

} // verus!
