use websocket_chat::http_request::HttpRequest;
use websocket_chat::http_request_parser::{HttpRequestParser, ParseResult};

#[test]
fn test_parse_method_indeterminate() {
    let mut parser = HttpRequestParser::new();
    let mut request = HttpRequest::default();

    let input = "GET ";
    let result = parser.parse(&mut request, input);

    assert!(matches!(result, ParseResult::Indeterminate));
    assert!(matches!(request.method.as_str(), "GET"));
}

#[test]
fn test_parse_method_uri_indeterminate() {
    let mut parser = HttpRequestParser::new();
    let mut request = HttpRequest::default();

    let input = "POST /local ";
    let result = parser.parse(&mut request, input);

    assert!(matches!(result, ParseResult::Indeterminate));
    assert!(matches!(request.method.as_str(), "POST"));
    assert!(matches!(request.uri.as_str(), "/local"));
}

#[test]
fn test_parse_whole_request_line() {
    let mut parser = HttpRequestParser::new();
    let mut request = HttpRequest::default();

    let input = "POST /localhost HTTP/1.1\r\n\r\n";
    let result = parser.parse(&mut request, input);

    assert!(matches!(result, ParseResult::Complete));
    assert!(matches!(request.method.as_str(), "POST"));
    assert!(matches!(request.uri.as_str(), "/localhost"));
    assert!(matches!(request.version_major, 1));
    assert!(matches!(request.version_minor, 1));
}

#[test]
fn test_parse_request_line_with_header() {
    let mut parser = HttpRequestParser::new();
    let mut request = HttpRequest::default();

    let input = "POST /localhost HTTP/1.1\r\nContent-Length: 37\r\n\r\n";
    let result = parser.parse(&mut request, input);

    assert!(matches!(result, ParseResult::Complete));
    assert!(matches!(request.method.as_str(), "POST"));
    assert!(matches!(request.uri.as_str(), "/localhost"));
    assert!(matches!(request.version_major, 1));
    assert!(matches!(request.version_minor, 1));
    println!("headers size: {}", request.headers.len());
    assert!(matches!(request.headers.len(), 1));
}

fn parse_whole(input: &str) -> (ParseResult, HttpRequest) {
    let mut parser = HttpRequestParser::new();
    let mut request = HttpRequest::default();
    let result = parser.parse(&mut request, input);
    (result, request)
}

fn parse_char_by_char(input: &str) -> (ParseResult, HttpRequest) {
    let mut parser = HttpRequestParser::new();
    let mut request = HttpRequest::default();
    let mut result = ParseResult::Indeterminate;
    for c in input.chars() {
        let piece = c.to_string();
        result = parser.parse(&mut request, &piece);
        if result != ParseResult::Indeterminate {
            break;
        }
    }
    (result, request)
}

fn same_request(a: &HttpRequest, b: &HttpRequest) -> bool {
    a.method == b.method
        && a.uri == b.uri
        && a.version_major == b.version_major
        && a.version_minor == b.version_minor
        && a.headers.len() == b.headers.len()
        && a.headers.iter().zip(b.headers.iter()).all(|(x, y)| x.name == y.name && x.value == y.value)
}

#[test]
fn whole_and_char_by_char_agree() {
    let inputs = [
        "GET / HTTP/1.1\r\nHost: x\r\nUpgrade: websocket\r\n\r\n",
        "GET /\r\n\r\n",
        "POST /a HTT",
        "DELETE /x HTTP/1.0\r\nA:  b\r\n\r\n",
    ];
    for input in inputs.iter() {
        let (r1, q1) = parse_whole(input);
        let (r2, q2) = parse_char_by_char(input);
        assert_eq!(r1, r2);
        assert!(same_request(&q1, &q2));
    }
}

#[test]
fn whole_and_two_chunks_agree() {
    let input = "GET /index.html HTTP/1.1\r\nHost: localhost\r\nAccept: */*\r\n\r\n";
    let (r1, q1) = parse_whole(input);
    let mut parser = HttpRequestParser::new();
    let mut request = HttpRequest::default();
    let first = parser.parse(&mut request, &input[..20]);
    assert_eq!(first, ParseResult::Indeterminate);
    let second = parser.parse(&mut request, &input[20..]);
    assert_eq!(second, r1);
    assert!(same_request(&q1, &request));
}

#[test]
fn complete_head_has_valid_fields() {
    let (r, q) = parse_whole("GET / HTTP/1.1\r\nHost: x\r\n\r\n");
    assert_eq!(r, ParseResult::Complete);
    assert_eq!(q.method, "GET");
    assert_eq!(q.uri, "/");
    assert_eq!(q.headers.len(), 1);
    assert_eq!(q.headers[0].name, "Host");
    assert_eq!(q.headers[0].value, "x");
}

#[test]
fn empty_target_is_bad() {
    let (r, _) = parse_whole("GET  HTTP/1.1\r\n\r\n");
    assert_eq!(r, ParseResult::Bad);
}

#[test]
fn empty_header_value_is_bad() {
    let (r, _) = parse_whole("GET / HTTP/1.1\r\nA: \r\n\r\n");
    assert_eq!(r, ParseResult::Bad);
}

#[test]
fn missing_version_is_bad() {
    let (r, _) = parse_whole("GET /\r\n\r\n");
    assert_eq!(r, ParseResult::Bad);
}

#[test]
fn digit_in_method_is_bad() {
    let (r, _) = parse_whole("G3T / HTTP/1.1\r\n\r\n");
    assert_eq!(r, ParseResult::Bad);
}

#[test]
fn control_character_in_value_is_bad() {
    let (r, _) = parse_whole("GET / HTTP/1.1\r\nA: b\u{1}c\r\n\r\n");
    assert_eq!(r, ParseResult::Bad);
}

#[test]
fn separator_in_header_name_is_bad() {
    let (r, _) = parse_whole("GET / HTTP/1.1\r\nA(b: c\r\n\r\n");
    assert_eq!(r, ParseResult::Bad);
}

#[test]
fn extra_leading_spaces_are_kept_in_value() {
    let (r, q) = parse_whole("GET / HTTP/1.1\r\nA:   b\r\n\r\n");
    assert_eq!(r, ParseResult::Complete);
    assert_eq!(q.headers[0].value, "  b");
}

#[test]
fn long_version_wraps_in_a_byte() {
    let (r, q) = parse_whole("GET / HTTP/300.12\r\n\r\n");
    assert_eq!(r, ParseResult::Complete);
    assert_eq!(q.version_major, 44);
    assert_eq!(q.version_minor, 12);
}

#[test]
fn non_ascii_target_is_bad() {
    let (r, _) = parse_whole("GET /caf\u{e9} HTTP/1.1\r\n\r\n");
    assert_eq!(r, ParseResult::Bad);
}
