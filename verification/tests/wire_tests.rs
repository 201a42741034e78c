use clienter::{HttpClient, HttpMethod, StreamBuffer, Uri};

#[test]
fn test_request_line_format() {
    let uri = Uri::from_str("http://example.com/a b").unwrap();
    let request = clienter::HttpRequest::new(HttpMethod::GET, uri);
    assert_eq!(request.get_request_line(), "GET /a%20b HTTP/1.1");

    let uri = Uri::from_str("https://example.com").unwrap();
    let request = clienter::HttpRequest::new(HttpMethod::POST, uri);
    assert_eq!(request.get_request_line(), "POST / HTTP/2");
}

#[test]
fn test_method_tokens() {
    assert_eq!(HttpMethod::GET.as_str(), "GET");
    assert_eq!(HttpMethod::POST.as_str(), "POST");
    assert_eq!(HttpMethod::DELETE.as_str(), "DELETE");
    assert_eq!(HttpMethod::OPTIONS.as_str(), "OPTIONS");
}

#[test]
fn test_serialized_head_shape() {
    let client = HttpClient::new();
    let uri = Uri::from_str("http://example.com/x").unwrap();
    let request = client.request(HttpMethod::GET, uri);
    let head = client.serialize_request(&request);
    assert!(head.starts_with("GET /x HTTP/1.1\r\n"));
    assert!(head.ends_with("\r\n\r\n"));
    assert!(head.contains("\r\nHost: localhost\r\n"));
    assert!(head.contains("\r\nUser-Agent: Clienter/1.0 (Rust)\r\n"));
}

#[test]
fn test_serialize_then_read_line_round_trip() {
    let client = HttpClient::new();
    let uri = Uri::from_str("http://example.com/a b").unwrap();
    let request = client.request(HttpMethod::GET, uri);
    let head = client.serialize_request(&request);

    let mut reader = StreamBuffer::new(head.into_bytes());
    let first_line = reader.read_line();
    assert_eq!(first_line, "GET /a%20b HTTP/1.1");
}

#[test]
fn test_request_headers_override_client_defaults() {
    let client = HttpClient::new();
    let uri = Uri::from_str("http://example.com").unwrap();
    let mut request = client.request(HttpMethod::GET, uri);
    request.headers.set_host("example.com".to_string());
    let head = client.serialize_request(&request);
    assert!(head.contains("\r\nHost: example.com\r\n"));
    assert!(!head.contains("\r\nHost: localhost\r\n"));
}

#[test]
fn test_stream_buffer_line_reading() {
    let mut b = StreamBuffer::new(b"one\r\ntwo\nthree".to_vec());
    assert_eq!(b.read_line(), "one");
    assert_eq!(b.read_line(), "two");
    assert_eq!(b.read_line(), "three");
    assert_eq!(b.read_line(), "");
}

#[test]
fn test_stream_buffer_bounded_read() {
    let mut b = StreamBuffer::new(b"head\r\nbody!!".to_vec());
    assert_eq!(b.read_line(), "head");
    b.set_total_bytes(4);
    assert_eq!(b.read_all(), Some(b"body".to_vec()));
    // a bulk read drains the stream: nothing more can be read
    assert_eq!(b.read_all(), None);

    let mut b = StreamBuffer::new(b"ab".to_vec());
    b.set_total_bytes(5);
    assert_eq!(b.read_all(), None);
}

#[test]
fn test_stream_buffer_unbounded_read() {
    let mut b = StreamBuffer::new(b"line\nrest of it".to_vec());
    assert_eq!(b.read_line(), "line");
    assert_eq!(b.read_all(), Some(b"rest of it".to_vec()));
    assert_eq!(b.read_all_string(), Some(String::new()));
}

#[test]
fn test_client_request_uses_defaults() {
    let client = HttpClient::new();
    assert!(client.timeout.is_none());
    let uri = Uri::from_str("http://h").unwrap();
    let request = client.request(HttpMethod::GET, uri);
    assert!(request.timeout.is_none());
    assert_eq!(request.headers.get("Connection"), Some(&"keep-alive".to_string()));
}
