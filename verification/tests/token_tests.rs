use leafhttp::error::{Error, IoErrorKind};
use leafhttp::method::Method;
use leafhttp::response_code::HttpStatus;
use leafhttp::version::Version;

#[test]
fn version_parse_and_display_round_trip() {
    let v = Version::parse("HTTP/1.1").unwrap();
    assert_eq!(v.major(), 1);
    assert_eq!(v.minor(), 1);
    assert_eq!(v.to_token(), "1.1");

    let v = Version::parse("HTTP/255.0").unwrap();
    assert_eq!(v.major(), 255);
    assert_eq!(v.minor(), 0);
    assert_eq!(v.to_token(), "255.0");
}

#[test]
fn version_parse_failures() {
    assert!(matches!(
        Version::parse("HTTP"),
        Err(Error::InvalidHttpVersion)
    ));
    assert!(matches!(
        Version::parse("HTTP/11"),
        Err(Error::InvalidHttpVersion)
    ));
    assert!(matches!(
        Version::parse("HTTP/a.1"),
        Err(Error::InvalidHttpVersion)
    ));
    assert!(matches!(
        Version::parse("HTTP/1."),
        Err(Error::InvalidHttpVersion)
    ));
    assert!(matches!(
        Version::parse("HTTP/256.0"),
        Err(Error::InvalidHttpVersion)
    ));
    assert!(matches!(
        Version::parse(""),
        Err(Error::InvalidHttpVersion)
    ));
}

#[test]
fn version_prefix_is_skipped_by_offset() {
    // The five prefix characters are skipped by fixed offset, not
    // compared against a literal.
    let v = Version::parse("XXXXX2.0").unwrap();
    assert_eq!(v.major(), 2);
    assert_eq!(v.minor(), 0);
}

#[test]
fn method_literals_round_trip() {
    let cases = [
        ("GET", Method::Get),
        ("POST", Method::Post),
        ("PUT", Method::Put),
        ("DELETE", Method::Delete),
        ("OPTIONS", Method::Options),
    ];
    for (token, method) in cases {
        let parsed = Method::parse(token).unwrap();
        assert_eq!(parsed, method);
        assert_eq!(parsed.as_token(), token);
    }
}

#[test]
fn method_rejects_everything_else() {
    for token in ["get", "HEAD", "PATCH", "", "GET ", "Get"] {
        assert!(matches!(Method::parse(token), Err(Error::UnknownMethod)));
    }
}

#[test]
fn status_codes_and_descriptions() {
    assert_eq!(HttpStatus::Okay.code(), 200);
    assert_eq!(HttpStatus::Okay.description(), "OK");
    assert_eq!(HttpStatus::NotFound.code(), 404);
    assert_eq!(HttpStatus::NotFound.description(), "Not Found");
    assert_eq!(HttpStatus::NotImplemented.code(), 501);
    assert_eq!(HttpStatus::NotImplemented.description(), "Not Implemented");
    assert_eq!(HttpStatus::InternalServerError.code(), 500);
    assert_eq!(
        HttpStatus::InternalServerError.description(),
        "Internal Server Error"
    );
    assert_eq!(HttpStatus::Forbidden.code(), 401);
    assert_eq!(HttpStatus::Forbidden.description(), "Forbidden");
}

#[test]
fn error_descriptions() {
    assert_eq!(Error::EmptyStream.describe(), "Client sent no data");
    assert_eq!(
        Error::syntax("Missing resource").describe(),
        "Malformed request: Missing resource"
    );
    assert_eq!(
        Error::UnknownMethod.describe(),
        "Unknown/unsupported/malformed HTTP method"
    );
    assert_eq!(
        Error::InvalidHttpVersion.describe(),
        "Invalid HTTP protocol version"
    );
}

#[test]
fn io_error_description() {
    assert_eq!(Error::Io(IoErrorKind::Other).describe(), "I/O Error");
}
