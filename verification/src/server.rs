//! The server's decisions: when the accept loop stops polling, and what
//! status code one request gets.
//!
//! The accept loop itself lives in the binary around the library: it polls
//! the listening socket, and between polls it consults [`accept_tick`]
//! with the clock and the run flag.  A connection's lines are handed to
//! [`handle_request`], and the status code that comes back is rendered
//! with [`crate::response_writer::render_response`] and written back.

use vstd::prelude::*;

use crate::callback_handler::CallbackHandler;
use crate::header::{spec_parse, Header, InputLine};
use crate::status_code::StatusCode;
use crate::text::find_char_from;
use crate::uri_parser::{spec_path_of, spec_uri_params, UriValues};

verus! {

/// How long the accept loop may keep polling before it re-reads the run
/// flag, in milliseconds.
pub const RUN_CHECK_INTERVAL_MILLIS: u64 = 250;

/// What the accept loop does next.
#[derive(Debug, PartialEq, Eq, Structural)]
pub enum AcceptDecision {
    /// Keep accepting connections; the payload is the time (in
    /// milliseconds) when the run flag was last checked.
    KeepRunning { last_check_millis: u64 },
    /// The run flag was found cleared: leave the loop.
    Shutdown,
}

/// One step of the accept loop's bounded-staleness check: the run flag is
/// only re-read when more than [`RUN_CHECK_INTERVAL_MILLIS`] has passed
/// since the last check, and the loop stops exactly when that re-read
/// finds the flag cleared.
pub open spec fn spec_accept_tick(now: u64, last_check: u64, running: bool) -> AcceptDecision {
    if now - last_check > RUN_CHECK_INTERVAL_MILLIS {
        if running {
            AcceptDecision::KeepRunning { last_check_millis: now }
        } else {
            AcceptDecision::Shutdown
        }
    } else {
        AcceptDecision::KeepRunning { last_check_millis: last_check }
    }
}

/// Whether the poll interval has elapsed, so that the accept loop must
/// re-read the run flag before polling again.  Until then the loop need
/// not take the lock at all.
pub fn run_check_due(now_millis: u64, last_check_millis: u64) -> (r: bool)
    requires
        last_check_millis <= now_millis,
    ensures
        r == (now_millis - last_check_millis > RUN_CHECK_INTERVAL_MILLIS),
{
    now_millis - last_check_millis > RUN_CHECK_INTERVAL_MILLIS
}

/// Decide whether the accept loop keeps going, re-reading the run flag
/// only when the poll interval has elapsed.
pub fn accept_tick(now_millis: u64, last_check_millis: u64, running: bool) -> (d: AcceptDecision)
    requires
        last_check_millis <= now_millis,
    ensures
        d == spec_accept_tick(now_millis, last_check_millis, running),
{
    if now_millis - last_check_millis > RUN_CHECK_INTERVAL_MILLIS {
        if running {
            AcceptDecision::KeepRunning { last_check_millis: now_millis }
        } else {
            AcceptDecision::Shutdown
        }
    } else {
        AcceptDecision::KeepRunning { last_check_millis }
    }
}

/// Once the run flag is cleared, the accept loop stops at its next
/// run-state check: any tick that happens more than one poll interval
/// after the previous check decides `Shutdown`.  The loop therefore
/// leaves within one poll interval of that check, regardless of in-flight
/// connections.
pub proof fn lemma_shutdown_within_interval(now: u64, last_check: u64)
    requires
        last_check + RUN_CHECK_INTERVAL_MILLIS < now,
    ensures
        spec_accept_tick(now, last_check, false) is Shutdown,
{
}

/// The status code one request gets: `BadRequest` when the header block
/// or the URI does not parse, the registered handler's answer for a known
/// path, and `NotFound` for a path with no handler — dispatching an
/// unregistered path is never an error at the server boundary.
pub fn handle_request<F: Fn() -> StatusCode>(
    lines: &Vec<InputLine>,
    callbacks: &CallbackHandler<F>,
) -> (code: StatusCode)
    requires
        callbacks.wf(),
        lines@.len() > 0 ==> lines@[0] is Line,
    ensures
        ({
            match spec_parse(lines@) {
                Err(_) => code == StatusCode::BadRequest,
                Ok(h) => if find_char_from(h.uri, '?', 0) == 0 || spec_uri_params(h.uri) is Err {
                    code == StatusCode::BadRequest
                } else if callbacks@.contains_key(spec_path_of(h.uri)) {
                    call_ensures(callbacks@[spec_path_of(h.uri)], (), code)
                } else {
                    code == StatusCode::NotFound
                },
            }
        }),
{
    let header = match Header::parse(lines) {
        Err(_) => {
            return StatusCode::BadRequest;
        },
        Ok(h) => h,
    };
    let uri_values = match UriValues::from(header.uri.as_str()) {
        Err(_) => {
            return StatusCode::BadRequest;
        },
        Ok(v) => v,
    };
    match callbacks.handle(uri_values.path.as_str()) {
        Ok(code) => code,
        Err(_) => StatusCode::NotFound,
    }
}

} // verus!
