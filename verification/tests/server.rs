use libkazm::callback_handler::CallbackHandler;
use libkazm::header::InputLine;
use libkazm::response_writer::render_response;
use libkazm::server::{accept_tick, handle_request, AcceptDecision, RUN_CHECK_INTERVAL_MILLIS};
use libkazm::status_code::StatusCode;

fn ok_handler() -> StatusCode {
    StatusCode::Okay
}

fn to_lines(request: &str) -> Vec<InputLine> {
    request.lines().map(|x| InputLine::Line(String::from(x))).collect()
}

fn test_registry() -> CallbackHandler<fn() -> StatusCode> {
    let mut registry: CallbackHandler<fn() -> StatusCode> = CallbackHandler::new();
    registry.register("/Test", ok_handler).unwrap();
    registry
}

#[test]
fn registered_path_is_answered_with_its_handler_code() {
    let registry = test_registry();

    let code = handle_request(&to_lines("GET /Test HTTP/1.1\n\n"), &registry);

    assert_eq!(code, StatusCode::Okay);
    assert_eq!(render_response(code, ""), String::from("HTTP/1.1 200 OK\r\n\r\n"));
}

#[test]
fn unregistered_path_is_answered_with_not_found() {
    let registry = test_registry();

    let code = handle_request(&to_lines("GET /Missing HTTP/1.1\n\n"), &registry);

    assert_eq!(code, StatusCode::NotFound);
    assert_eq!(render_response(code, ""), String::from("HTTP/1.1 404 Not Found\r\n\r\n"));
}

#[test]
fn garbage_request_is_answered_with_bad_request() {
    let registry = test_registry();

    let code = handle_request(&to_lines("GARBAGE\n\n"), &registry);

    assert_eq!(code, StatusCode::BadRequest);
    assert_eq!(render_response(code, ""), String::from("HTTP/1.1 400 Bad Request\r\n\r\n"));
}

#[test]
fn bad_uri_is_answered_with_bad_request() {
    let registry = test_registry();

    let code = handle_request(&to_lines("GET /Test?a=1&a=2 HTTP/1.1\n\n"), &registry);

    assert_eq!(code, StatusCode::BadRequest);
}

#[test]
fn query_parameters_do_not_hide_the_path() {
    let registry = test_registry();

    let code = handle_request(&to_lines("GET /Test?Foo=Bar HTTP/1.1\n\n"), &registry);

    assert_eq!(code, StatusCode::Okay);
}

#[test]
fn accept_loop_keeps_running_within_the_poll_interval() {
    assert_eq!(accept_tick(100, 0, true), AcceptDecision::KeepRunning { last_check_millis: 0 });
    assert_eq!(accept_tick(250, 0, false), AcceptDecision::KeepRunning { last_check_millis: 0 });
}

#[test]
fn accept_loop_refreshes_its_check_time_when_running() {
    assert_eq!(accept_tick(300, 0, true), AcceptDecision::KeepRunning { last_check_millis: 300 });
}

#[test]
fn accept_loop_stops_within_one_interval_of_shutdown() {
    assert_eq!(accept_tick(RUN_CHECK_INTERVAL_MILLIS + 1, 0, false), AcceptDecision::Shutdown);
    assert_eq!(accept_tick(10_000, 9_000, false), AcceptDecision::Shutdown);
}
