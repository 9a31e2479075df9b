use leafhttp::config::ServerConfig;
use leafhttp::error::Error;
use leafhttp::method::Method;
use leafhttp::request::HttpRequest;

fn config() -> ServerConfig {
    ServerConfig::default()
}

#[test]
fn root_request_takes_default_index() {
    let req = HttpRequest::parse("GET / HTTP/1.1\r\n\r\n", &config()).unwrap();
    assert_eq!(req.method, Method::Get);
    assert_eq!(req.resource, "index.html");
    assert_eq!(req.http_ver.major(), 1);
    assert_eq!(req.http_ver.minor(), 1);
    assert_eq!(req.headers.len(), 0);
    assert_eq!(req.body, "");
}

#[test]
fn resource_keeps_its_name() {
    let req = HttpRequest::parse("GET /page.html HTTP/1.0\r\n\r\n", &config()).unwrap();
    assert_eq!(req.resource, "page.html");
    assert_eq!(req.http_ver.minor(), 0);
}

#[test]
fn headers_and_body_are_read() {
    let raw = "POST /submit HTTP/1.1\r\nHost: localhost\r\nAccept: */*\r\n\r\npayload";
    let req = HttpRequest::parse(raw, &config()).unwrap();
    assert_eq!(req.method, Method::Post);
    assert_eq!(req.resource, "submit");
    assert_eq!(req.headers.len(), 2);
    assert_eq!(req.headers.get("Host").unwrap(), "localhost");
    assert_eq!(req.headers.get("Accept").unwrap(), "*/*");
    assert_eq!(req.body, "payload");
}

#[test]
fn duplicate_header_last_write_wins() {
    let raw = "GET /x HTTP/1.1\r\nKey: one\r\nKey: two\r\n\r\n";
    let req = HttpRequest::parse(raw, &config()).unwrap();
    assert_eq!(req.headers.len(), 1);
    assert_eq!(req.headers.get("Key").unwrap(), "two");
}

#[test]
fn empty_buffer_is_empty_stream() {
    assert!(matches!(
        HttpRequest::parse("", &config()),
        Err(Error::EmptyStream)
    ));
}

#[test]
fn missing_terminator_is_syntax_error() {
    match HttpRequest::parse("GET / HTTP/1.1", &config()) {
        Err(Error::Syntax(d)) => assert_eq!(d, "Missing \\r\\n in init header"),
        _ => panic!("expected a syntax failure"),
    }
}

#[test]
fn missing_tokens_are_reported() {
    match HttpRequest::parse("GET\r\n\r\n", &config()) {
        Err(Error::Syntax(d)) => assert_eq!(d, "Missing resource"),
        _ => panic!("expected a syntax failure"),
    }
    match HttpRequest::parse("GET /\r\n\r\n", &config()) {
        Err(Error::Syntax(d)) => assert_eq!(d, "Missing HTTP version"),
        _ => panic!("expected a syntax failure"),
    }
    match HttpRequest::parse("GET / HTTP/1.1 extra\r\n\r\n", &config()) {
        Err(Error::Syntax(d)) => assert_eq!(d, "Extra data left in init header"),
        _ => panic!("expected a syntax failure"),
    }
}

#[test]
fn bad_method_and_version_propagate() {
    assert!(matches!(
        HttpRequest::parse("FETCH / HTTP/1.1\r\n\r\n", &config()),
        Err(Error::UnknownMethod)
    ));
    assert!(matches!(
        HttpRequest::parse("GET / HTTP/one.1\r\n\r\n", &config()),
        Err(Error::InvalidHttpVersion)
    ));
}

#[test]
fn malformed_header_line_is_syntax_error() {
    match HttpRequest::parse("GET /x HTTP/1.1\r\nNoSeparator\r\n\r\n", &config()) {
        Err(Error::Syntax(d)) => assert_eq!(d, "Can't parse header"),
        _ => panic!("expected a syntax failure"),
    }
}

#[test]
fn headers_without_blank_line_leave_empty_body() {
    let req = HttpRequest::parse("GET /x HTTP/1.1\r\nHost: h\r\n", &config()).unwrap();
    assert_eq!(req.headers.len(), 1);
    assert_eq!(req.body, "");
}

#[test]
fn header_line_splits_on_first_separator() {
    let (name, value) = HttpRequest::parse_header("Key: a: b").unwrap();
    assert_eq!(name, "Key");
    assert_eq!(value, "a: b");
    assert!(matches!(
        HttpRequest::parse_header("NoSeparator"),
        Err(Error::Syntax(_))
    ));
}
