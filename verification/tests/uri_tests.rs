use clienter::{Protocol, Uri, UriError};

#[test]
fn test_uri_from_str() {
    let uri = Uri::from_str("http://localhost:8080/hello/world").unwrap();
    assert_eq!(uri.protocol, Protocol::HTTP);
    assert_eq!(uri.hostname, "localhost");
    assert_eq!(uri.port, Some(8080));
    assert_eq!(uri.path, "hello/world");

    // Default protocol when no scheme is written
    let uri = Uri::from_str("localhost/path").unwrap();
    assert_eq!(uri.protocol, Protocol::HTTP);
    assert_eq!(uri.hostname, "localhost");
    assert_eq!(uri.port, None);
    assert_eq!(uri.path, "path");

    // HTTPS with default port
    let uri = Uri::from_str("https://api.example.com/v1/users").unwrap();
    assert_eq!(uri.protocol, Protocol::HTTPS);
    assert_eq!(uri.hostname, "api.example.com");
    assert_eq!(uri.port, None);
    assert_eq!(uri.path, "v1/users");

    // Empty path
    let uri = Uri::from_str("http://localhost:8080").unwrap();
    assert_eq!(uri.path, "");
}

#[test]
fn test_uri_errors() {
    assert_eq!(Uri::from_str(""), Err(UriError::Empty));
    assert_eq!(Uri::from_str("invalid://host"), Err(UriError::InvalidProtocol));
    assert_eq!(Uri::from_str("http://:80"), Err(UriError::InvalidHostname));
    assert_eq!(Uri::from_str("http://localhost:invalid"), Err(UriError::InvalidPort));
}

#[test]
fn test_uri_error_cases_more() {
    assert_eq!(Uri::from_str("ftp://host"), Err(UriError::InvalidProtocol));
    assert_eq!(Uri::from_str("http://"), Err(UriError::InvalidHostname));
    assert_eq!(Uri::from_str("http://host:70000"), Err(UriError::InvalidPort));
}

#[test]
fn test_resolved_address_uses_explicit_port() {
    let uri = Uri::from_str("http://localhost:8080/hello").unwrap();
    assert_eq!(uri.get_addr(), "localhost:8080");
    let uri = Uri::from_str("https://example.com:443").unwrap();
    assert_eq!(uri.get_addr(), "example.com:443");
}

#[test]
fn test_resolved_address_uses_scheme_default_port() {
    let uri = Uri::from_str("http://example.com").unwrap();
    assert_eq!(uri.get_addr(), "example.com:80");
    let uri = Uri::from_str("https://example.com/x").unwrap();
    assert_eq!(uri.get_addr(), "example.com:443");
    let uri = Uri::from_str("example.com").unwrap();
    assert_eq!(uri.get_addr(), "example.com:80");
}

#[test]
fn test_encoded_path_percent_then_space() {
    let uri = Uri::from_str("http://example.com/50%discount").unwrap();
    assert_eq!(uri.get_encoded_path(), "50%25discount");
    let uri = Uri::from_str("http://example.com/a b").unwrap();
    assert_eq!(uri.get_encoded_path(), "a%20b");
    let uri = Uri::from_str("http://example.com/100% a b").unwrap();
    assert_eq!(uri.get_encoded_path(), "100%25%20a%20b");
    let uri = Uri::from_str("http://example.com/plain").unwrap();
    assert_eq!(uri.get_encoded_path(), "plain");
}

#[test]
fn test_protocol_defaults_and_labels() {
    assert_eq!(Protocol::from_str("http"), Ok(Protocol::HTTP));
    assert_eq!(Protocol::from_str("https"), Ok(Protocol::HTTPS));
    assert_eq!(Protocol::from_str("HTTP"), Err(()));
    assert_eq!(Protocol::from_str("ftp"), Err(()));
    assert_eq!(Protocol::HTTP.get_default_port(), 80);
    assert_eq!(Protocol::HTTPS.get_default_port(), 443);
    assert_eq!(Protocol::HTTP.get_http_version(), "HTTP/1.1");
    assert_eq!(Protocol::HTTPS.get_http_version(), "HTTP/2");
}
