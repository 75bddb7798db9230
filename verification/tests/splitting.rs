use libkazm::method::Method;
use libkazm::pathmatcher::parse_path;
use libkazm::request_data::{collect_header_fields, get_headers};
use libkazm::url_matcher::{parse_url, UrlMatcherErrors};

#[test]
fn methods_parse_from_their_canonical_names() {
    assert_eq!(Method::from_name("GET"), Some(Method::Get));
    assert_eq!(Method::from_name("HEAD"), Some(Method::Head));
    assert_eq!(Method::from_name("POST"), Some(Method::Post));
    assert_eq!(Method::from_name("PUT"), Some(Method::Put));
    assert_eq!(Method::from_name("DELETE"), Some(Method::Delete));
    assert_eq!(Method::from_name("CONNECT"), Some(Method::Connect));
    assert_eq!(Method::from_name("OPTIONS"), Some(Method::Options));
    assert_eq!(Method::from_name("TRACE"), Some(Method::Trace));
    assert_eq!(Method::from_name("PATCH"), Some(Method::Patch));
}

#[test]
fn method_matching_is_case_sensitive() {
    assert_eq!(Method::from_name("get"), None);
    assert_eq!(Method::from_name(""), None);
    assert_eq!(Method::from_name("GETX"), None);
}

#[test]
fn method_names_round_trip() {
    assert_eq!(Method::from_name(Method::Patch.name()), Some(Method::Patch));
    assert_eq!(Method::Get.name(), "GET");
}

#[test]
fn request_line_splits_on_single_spaces() {
    let data = get_headers("GET /a HTTP1").unwrap();

    assert_eq!(data.method, Method::Get);
    assert_eq!(data.path, String::from("/a"));
    assert_eq!(data.version, String::from("/a"));
}

#[test]
fn request_line_with_doubled_space_keeps_the_empty_token() {
    let data = get_headers("GET  VERSION").unwrap();

    assert_eq!(data.path, String::from(""));
}

#[test]
fn request_line_without_enough_tokens_is_rejected() {
    assert!(get_headers("GET /a").is_none());
    assert!(get_headers("FOO /a v").is_none());
    assert!(get_headers("").is_none());
}

#[test]
fn collected_fields_split_between_the_separators() {
    let lines = vec![
        String::from("Foo: Bar"),
        String::from("Garbage"),
        String::from("A: b: c"),
    ];

    let fields = collect_header_fields(&lines);

    assert_eq!(fields.len(), 3);
    assert_eq!(fields.get("Foo"), Some(&String::from("Bar")));
    assert_eq!(fields.get("Garbage"), Some(&String::from("")));
    assert_eq!(fields.get("A"), Some(&String::from("b")));
}

#[test]
fn parse_path_splits_path_and_parameters() {
    let (path, params) = parse_path("/Foo?Foo=Bar&Bar=Baz").unwrap();

    assert_eq!(path, String::from("/Foo"));
    assert_eq!(params.len(), 2);
    assert_eq!(params.get("Foo"), Some(&String::from("Bar")));
    assert_eq!(params.get("Bar"), Some(&String::from("Baz")));
}

#[test]
fn parse_path_accepts_an_empty_path() {
    let (path, params) = parse_path("").unwrap();

    assert_eq!(path, String::from(""));
    assert_eq!(params.len(), 0);
}

#[test]
fn parse_path_reports_duplicates_in_plain_text() {
    let message = parse_path("/Foo?Foo=Bar&Foo=Baz").err().unwrap();

    assert_eq!(message, String::from("Duplicate parameter Foo"));
}

#[test]
fn parse_url_splits_path_and_parameters() {
    let (path, params) = parse_url("/Foo?Foo=Bar").unwrap();

    assert_eq!(path, String::from("/Foo"));
    assert_eq!(params.len(), 1);
    assert_eq!(params.get("Foo"), Some(&String::from("Bar")));
}

#[test]
fn parse_url_reports_duplicates_with_their_key() {
    let error = parse_url("/Foo?Foo=Bar&Foo=Baz").err().unwrap();

    assert_eq!(error, UrlMatcherErrors::DuplicateKey(String::from("Foo")));
    assert_eq!(error.describe(), String::from("Duplicate Key 'Foo'"));
}
