use libkazm::header::{Header, HeaderError, InputLine};
use libkazm::method::Method;
use libkazm::uri_parser::{UriParseError, UriValues};

fn to_lines(request: &str) -> Vec<InputLine> {
    request.lines().map(|x| InputLine::Line(String::from(x))).collect()
}

#[test]
fn empty_request_results_in_error() {
    let request = String::from("");

    let parse_result = Header::parse(&to_lines(&request));

    assert_eq!(parse_result.err().unwrap(), HeaderError::Empty);
}

#[test]
fn wrong_method_results_in_error() {
    let request = String::from("FOO /PATH VERSION");

    let parse_result = Header::parse(&to_lines(&request));

    assert_eq!(parse_result.err().unwrap(), HeaderError::InvalidMethod(String::from("FOO")));
}

#[test]
fn missing_path_results_in_error() {
    let request = String::from("GET  VERSION");

    let parse_result = Header::parse(&to_lines(&request));

    assert_eq!(parse_result.err().unwrap(), HeaderError::MissingVersion);
}

#[test]
fn missing_version_results_in_error() {
    let request = String::from("GET /PATH");

    let parse_result = Header::parse(&to_lines(&request));

    assert_eq!(parse_result.err().unwrap(), HeaderError::MissingVersion);
}

#[test]
fn valid_prelude_is_successfully_parsed() {
    let path = String::from("/This/Is/A/Path.html");
    let version = String::from("HTTP666");

    let request = format!("GET {} {}", path, version);

    let parse_result = Header::parse(&to_lines(&request));

    let header = parse_result.unwrap();

    assert_eq!(header.method, Method::Get);
    assert_eq!(header.uri, path);
    assert_eq!(header.version, version);
    assert_eq!(header.headers.len(), 0);
}

#[test]
fn header_params_are_successfully_parsed() {
    let path = String::from("/This/Is/A/Path.html");
    let version = String::from("HTTP666");

    let request = format!("GET {} {}\nFoo: Bar\nBaz: Blubb\n\n", path, version);

    let parse_result = Header::parse(&to_lines(&request));

    let header = parse_result.unwrap();

    assert_eq!(header.method, Method::Get);
    assert_eq!(header.uri, path);
    assert_eq!(header.version, version);
    assert_eq!(header.headers.len(), 2);
    assert_eq!(header.headers.get("Foo"), Some(&String::from("Bar")));
    assert_eq!(header.headers.get("Baz"), Some(&String::from("Blubb")));
}

#[test]
fn lone_method_token_is_missing_its_path() {
    let request = String::from("GET");

    let parse_result = Header::parse(&to_lines(&request));

    assert_eq!(parse_result.err().unwrap(), HeaderError::MissingPath);
}

#[test]
fn read_failure_in_header_block_aborts_the_parse() {
    let mut lines = to_lines("GET /PATH VERSION\nFoo: Bar");
    lines.push(InputLine::Failed);

    let parse_result = Header::parse(&lines);

    assert_eq!(parse_result.err().unwrap(), HeaderError::ParamError);
}

#[test]
fn malformed_header_line_is_dropped() {
    let request = String::from("GET /PATH VERSION\nFoo: Bar\nGarbage\n\n");

    let header = Header::parse(&to_lines(&request)).unwrap();

    assert_eq!(header.headers.len(), 1);
    assert_eq!(header.headers.get("Foo"), Some(&String::from("Bar")));
    assert_eq!(header.headers.get("Garbage"), None);
}

#[test]
fn repeated_header_name_keeps_the_last_value() {
    let request = String::from("GET /PATH VERSION\nFoo: Bar\nFoo: Baz\n\n");

    let header = Header::parse(&to_lines(&request)).unwrap();

    assert_eq!(header.headers.len(), 1);
    assert_eq!(header.headers.get("Foo"), Some(&String::from("Baz")));
}

#[test]
fn header_value_keeps_later_separators() {
    let request = String::from("GET /PATH VERSION\nFoo: a: b\n\n");

    let header = Header::parse(&to_lines(&request)).unwrap();

    assert_eq!(header.headers.get("Foo"), Some(&String::from("a: b")));
}

#[test]
fn uri_parser_does_not_parse_empty_uri_correctly() {
    let values = UriValues::from("").err();

    assert_eq!(values, Some(UriParseError::MissingPath));
}

#[test]
fn uri_parser_basic_uri_successfully() {
    let values = UriValues::from("/Foo").unwrap();

    assert_eq!(values.path, String::from("/Foo"));
    assert_eq!(values.parameters.len(), 0);
}

#[test]
fn uri_parser_fails_when_path_is_missing() {
    let values = UriValues::from("?Foo=Bar").err();

    assert_eq!(values, Some(UriParseError::MissingPath));
}

#[test]
fn uri_parser_fails_when_duplicate_paths_are_specified() {
    let values = UriValues::from("/Foo?Foo=Bar&Foo=Baz").err();

    assert_eq!(values, Some(UriParseError::DuplicateKey(String::from("Foo"))));
}

#[test]
fn uri_parser_successfully() {
    let UriValues { path: x, parameters: y } = UriValues::from("/Foo?Foo=Bar&Bar=Baz").unwrap();

    assert_eq!(x, "/Foo");

    assert_eq!(y.len(), 2);
    assert_eq!(y.get("Foo"), Some(&String::from("Bar")));
    assert_eq!(y.get("Bar"), Some(&String::from("Baz")));
}

#[test]
fn uri_parser_drops_tokens_without_exactly_one_separator() {
    let values = UriValues::from("/Foo?a=1&junk&x=1=2&b=2").unwrap();

    assert_eq!(values.path, String::from("/Foo"));
    assert_eq!(values.parameters.len(), 2);
    assert_eq!(values.parameters.get("a"), Some(&String::from("1")));
    assert_eq!(values.parameters.get("b"), Some(&String::from("2")));
    assert_eq!(values.parameters.get("junk"), None);
    assert_eq!(values.parameters.get("x"), None);
}

#[test]
fn uri_parser_accepts_empty_query() {
    let values = UriValues::from("/Foo?").unwrap();

    assert_eq!(values.path, String::from("/Foo"));
    assert_eq!(values.parameters.len(), 0);
}

#[test]
fn uri_parser_keeps_empty_keys_and_values() {
    let values = UriValues::from("/Foo?=v&k=").unwrap();

    assert_eq!(values.parameters.len(), 2);
    assert_eq!(values.parameters.get(""), Some(&String::from("v")));
    assert_eq!(values.parameters.get("k"), Some(&String::from("")));
}
