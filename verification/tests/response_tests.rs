use leafhttp::headers::Headers;
use leafhttp::response::HttpResponse;
use leafhttp::response_code::HttpStatus;
use leafhttp::version::Version;

#[test]
fn response_1() {
    let mut headers = Headers::new();
    headers.insert(
        "Some-Random-Header".to_string(),
        "Some-Random-Value".to_string(),
    );
    let response = HttpResponse::new(Version::new(1, 1), HttpStatus::Okay, headers, String::new());
    let raw = response.finalize();

    assert_eq!(
        raw,
        "HTTP/1.1 200 OK\r\nContent-Length: 0\r\nContent-Type: text/html; charset=UTF-8\r\nSome-Random-Header: Some-Random-Value\r\n\r\n"
    );
}

#[test]
fn response_2() {
    let mut headers = Headers::new();
    headers.insert(
        "Some-Random-Header".to_string(),
        "Some-Random-Value".to_string(),
    );
    headers.insert("Xyz".to_string(), "ABC".to_string());
    let response = HttpResponse::new(
        Version::new(2, 0),
        HttpStatus::Okay,
        headers,
        String::from("Hello, World!\n"),
    );
    let raw = response.finalize();

    assert_eq!(
        raw,
        "HTTP/2.0 200 OK\r\nContent-Length: 14\r\nContent-Type: text/html; charset=UTF-8\r\nSome-Random-Header: Some-Random-Value\r\nXyz: ABC\r\n\r\nHello, World!\n"
    );
}

#[test]
fn response_3() {
    let response = HttpResponse::new(
        Version::new(1, 0),
        HttpStatus::InternalServerError,
        Headers::new(),
        String::new(),
    );
    let raw = response.finalize();

    assert_eq!(
        raw,
        "HTTP/1.0 500 Internal Server Error\r\nContent-Length: 0\r\nContent-Type: text/html; charset=UTF-8\r\n\r\n"
    );
}

#[test]
fn serialize_twice_identical() {
    let mut headers = Headers::new();
    headers.insert("Xyz".to_string(), "ABC".to_string());
    let response = HttpResponse::new(
        Version::new(1, 1),
        HttpStatus::Okay,
        headers,
        String::from("body"),
    );
    let copy = response.clone();
    assert_eq!(response.finalize(), copy.finalize());
}

#[test]
fn explicit_headers_not_overwritten() {
    let mut headers = Headers::new();
    headers.insert("Content-Type".to_string(), "application/json".to_string());
    headers.insert("Content-Length".to_string(), "999".to_string());
    let response = HttpResponse::new(
        Version::new(1, 1),
        HttpStatus::Okay,
        headers,
        String::from("{}"),
    );
    let raw = response.finalize();
    assert_eq!(
        raw,
        "HTTP/1.1 200 OK\r\nContent-Length: 999\r\nContent-Type: application/json\r\n\r\n{}"
    );
}

#[test]
fn new_with_content_fills_type_and_length() {
    let response = HttpResponse::new_with_content(
        Version::new(1, 1),
        Headers::new(),
        "text/plain",
        String::from("abc"),
    );
    assert_eq!(response.status, HttpStatus::Okay);
    let raw = response.finalize();
    assert_eq!(
        raw,
        "HTTP/1.1 200 OK\r\nContent-Length: 3\r\nContent-Type: text/plain\r\n\r\nabc"
    );
}

#[test]
fn canned_responses() {
    assert_eq!(HttpResponse::not_found().status.code(), 404);
    assert_eq!(HttpResponse::forbidden().status.code(), 401);
    assert_eq!(HttpResponse::not_implemented().status.code(), 501);
    assert_eq!(HttpResponse::internal_error().status.code(), 500);
    let raw = HttpResponse::not_found().finalize();
    assert_eq!(
        raw,
        "HTTP/1.1 404 Not Found\r\nContent-Length: 0\r\nContent-Type: text/html; charset=UTF-8\r\n\r\n"
    );
}
