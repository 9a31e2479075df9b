use leafhttp::admission::ConnectionCounter;
use leafhttp::config::ServerConfig;
use leafhttp::error::IoErrorKind;
use leafhttp::handler::{conclude_request, plan_request, Directive};
use leafhttp::request::HttpRequest;
use leafhttp::response_code::HttpStatus;
use leafhttp::version::Version;

fn parse(raw: &str, config: &ServerConfig) -> HttpRequest {
    HttpRequest::parse(raw, config).unwrap()
}

#[test]
fn disallowed_version_aborts() {
    let config = ServerConfig::default();
    let req = parse("GET / HTTP/9.0\r\n\r\n", &config);
    assert!(matches!(plan_request(&req, &config), Directive::Abort));
}

#[test]
fn non_get_is_not_implemented() {
    let config = ServerConfig::default();
    let req = parse("POST /x HTTP/1.1\r\n\r\n", &config);
    match plan_request(&req, &config) {
        Directive::Respond(resp) => assert_eq!(resp.status, HttpStatus::NotImplemented),
        _ => panic!("expected an immediate response"),
    }
}

#[test]
fn get_resolves_under_root_with_protection() {
    let config = ServerConfig::default();
    let req = parse("GET /page.html HTTP/1.1\r\n\r\n", &config);
    match plan_request(&req, &config) {
        Directive::Fetch { path, canonicalize } => {
            assert_eq!(path, "www/page.html");
            assert!(canonicalize);
        }
        _ => panic!("expected a fetch"),
    }
}

#[test]
fn traversal_path_goes_to_canonicalization_when_protected() {
    let config = ServerConfig::default();
    let req = parse("GET /../../etc/passwd HTTP/1.1\r\n\r\n", &config);
    match plan_request(&req, &config) {
        Directive::Fetch { path, canonicalize } => {
            assert_eq!(path, "www/../../etc/passwd");
            assert!(canonicalize, "protection on: the path must be canonicalized");
        }
        _ => panic!("expected a fetch"),
    }
}

#[test]
fn traversal_path_is_used_as_given_when_allowed() {
    let mut config = ServerConfig::default();
    config.path_traversal = true;
    let req = parse("GET /../../etc/passwd HTTP/1.1\r\n\r\n", &config);
    match plan_request(&req, &config) {
        Directive::Fetch { path, canonicalize } => {
            assert_eq!(path, "www/../../etc/passwd");
            assert!(!canonicalize, "protection off: the path is used as-is");
        }
        _ => panic!("expected a fetch"),
    }
}

#[test]
fn failed_canonicalization_maps_to_not_found() {
    let resp = conclude_request(Version::new(1, 1), "www/../../etc/passwd", Err(IoErrorKind::NotFound));
    assert_eq!(resp.status, HttpStatus::NotFound);
    assert_eq!(resp.body, "");
}

#[test]
fn io_failures_map_to_statuses() {
    let v = Version::new(1, 1);
    let cases = [
        (IoErrorKind::NotFound, HttpStatus::NotFound),
        (IoErrorKind::PermissionDenied, HttpStatus::Forbidden),
        (IoErrorKind::IsADirectory, HttpStatus::NotFound),
        (IoErrorKind::Other, HttpStatus::InternalServerError),
    ];
    for (kind, status) in cases {
        let resp = conclude_request(v, "www/x", Err(kind));
        assert_eq!(resp.status, status);
        assert_eq!(resp.headers.len(), 0);
        assert_eq!(resp.body, "");
    }
}

#[test]
fn content_is_served_with_guessed_mime() {
    let resp = conclude_request(
        Version::new(1, 1),
        "www/page.html",
        Ok(String::from("<p>hi</p>")),
    );
    assert_eq!(resp.status, HttpStatus::Okay);
    assert_eq!(resp.headers.get("Content-Type").unwrap(), "text/html");
    assert_eq!(resp.headers.get("Content-Length").unwrap(), "9");
    assert_eq!(resp.body, "<p>hi</p>");
}

#[test]
fn unknown_extension_defaults_to_text_plain() {
    let resp = conclude_request(
        Version::new(1, 1),
        "www/data.zzyzx",
        Ok(String::from("x")),
    );
    assert_eq!(resp.headers.get("Content-Type").unwrap(), "text/plain");
}

#[test]
fn admission_stops_at_the_cap() {
    let mut counter = ConnectionCounter::new();
    let max = 2;
    assert!(counter.try_admit(max));
    assert!(counter.try_admit(max));
    assert_eq!(counter.count, 2);
    assert!(!counter.try_admit(max), "at the cap the connection is dropped");
    assert_eq!(counter.count, 2, "a dropped connection leaves the count untouched");
    counter.release();
    assert_eq!(counter.count, 1);
    assert!(counter.try_admit(max));
}
