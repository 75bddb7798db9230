use libkazm::response_writer::render_response;
use libkazm::status_code::StatusCode;

#[test]
fn write_empty_response_writes_correct_status_code() {
    let response = render_response(StatusCode::Okay, "");

    assert_eq!(response, String::from("HTTP/1.1 200 OK\r\n\r\n"));
}

#[test]
fn write_response_writes_correct_status_code_and_message() {
    let response = render_response(StatusCode::Okay, "FooBar");

    assert_eq!(response, String::from("HTTP/1.1 200 OK\r\n\r\nFooBar"));
}

#[test]
fn status_codes_render_their_reason_phrases() {
    assert_eq!(StatusCode::Okay.to_response(), String::from("200 OK"));
    assert_eq!(StatusCode::BadRequest.to_response(), String::from("400 Bad Request"));
    assert_eq!(StatusCode::NotFound.to_response(), String::from("404 Not Found"));
}

#[test]
fn error_responses_render_whole_status_lines() {
    assert_eq!(
        render_response(StatusCode::BadRequest, ""),
        String::from("HTTP/1.1 400 Bad Request\r\n\r\n")
    );
    assert_eq!(
        render_response(StatusCode::NotFound, ""),
        String::from("HTTP/1.1 404 Not Found\r\n\r\n")
    );
}
