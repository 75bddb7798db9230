//! Rendering the status-line response that is written back on the wire.

use vstd::prelude::*;
use vstd::string::*;

use crate::status_code::{spec_status_text, StatusCode};

verus! {

/// The full response text for `code` with the given body:
/// `HTTP/1.1 <numeric-code> <reason-phrase>\r\n\r\n<body>`.
pub open spec fn spec_response_text(code: StatusCode, body: Seq<char>) -> Seq<char> {
    "HTTP/1.1 "@ + spec_status_text(code) + "\r\n\r\n"@ + body
}

/// Render the response for `code` carrying `body` (which may be empty).
pub fn render_response(code: StatusCode, body: &str) -> (text: String)
    ensures
        text@ == spec_response_text(code, body@),
{
    let text = String::from_str("HTTP/1.1 ").concat(code.to_response().as_str()).concat(
        "\r\n\r\n",
    ).concat(body);
    proof {
        assert(text@ =~= spec_response_text(code, body@));
    }
    text
}

} // verus!
