use clienter::{HttpResponse, ResponseError, StatusCode};

fn bytes(s: &str) -> Vec<u8> {
    s.as_bytes().to_vec()
}

#[test]
fn test_status_line_ok() {
    let r = HttpResponse::build(bytes("HTTP/1.1 200 OK\r\n\r\n")).unwrap();
    assert_eq!(r.status, StatusCode::Ok200);
}

#[test]
fn test_status_line_unknown_code() {
    let r = HttpResponse::build(bytes("HTTP/1.1 999 Bogus\r\n\r\n"));
    assert!(matches!(r, Err(ResponseError::InvalidStatusLine)));
}

#[test]
fn test_status_line_reason_not_interpreted() {
    // the reason phrase carries no meaning: any third token is accepted
    let r = HttpResponse::build(bytes("HTTP/1.1 204 Anything At All\r\n\r\n")).unwrap();
    assert_eq!(r.status, StatusCode::NoContent204);
    let r = HttpResponse::build(bytes("HTTP/1.1 204 x\r\n\r\n")).unwrap();
    assert_eq!(r.status, StatusCode::NoContent204);
}

#[test]
fn test_status_line_too_few_tokens() {
    let r = HttpResponse::build(bytes("HTTP/1.1\r\n\r\n"));
    assert!(matches!(r, Err(ResponseError::InvalidStatusLine)));
    let r = HttpResponse::build(bytes("HTTP/1.1 200\r\n\r\n"));
    assert!(matches!(r, Err(ResponseError::InvalidStatusLine)));
    let r = HttpResponse::build(bytes(""));
    assert!(matches!(r, Err(ResponseError::InvalidStatusLine)));
}

#[test]
fn test_header_parsing_and_trim() {
    let mut r = HttpResponse::build(bytes(
        "HTTP/1.1 200 OK\r\nContent-Type:  text/plain \r\nX-Twice: a\r\nX-Twice: b\r\n\r\n",
    ))
    .unwrap();
    assert_eq!(r.headers.get("Content-Type"), Some(&"text/plain".to_string()));
    assert_eq!(r.headers.get("X-Twice"), Some(&"b".to_string()));
    assert_eq!(r.body().unwrap(), Vec::<u8>::new());
}

#[test]
fn test_header_without_colon_fails() {
    let r = HttpResponse::build(bytes("HTTP/1.1 200 OK\r\nnocolonhere\r\n\r\n"));
    assert!(matches!(r, Err(ResponseError::InvalidHeader)));
}

#[test]
fn test_body_with_content_length_exact() {
    let mut r = HttpResponse::build(bytes(
        "HTTP/1.1 200 OK\r\nContent-Length: 5\r\n\r\nhello",
    ))
    .unwrap();
    assert_eq!(r.body().unwrap(), b"hello".to_vec());
}

#[test]
fn test_body_with_content_length_short_stream_fails() {
    let mut r = HttpResponse::build(bytes(
        "HTTP/1.1 200 OK\r\nContent-Length: 5\r\n\r\nhel",
    ))
    .unwrap();
    assert_eq!(r.body(), Err(ResponseError::InvalidBody));
}

#[test]
fn test_body_with_content_length_ignores_extra() {
    let mut r = HttpResponse::build(bytes(
        "HTTP/1.1 200 OK\r\nContent-Length: 5\r\n\r\nhelloEXTRA",
    ))
    .unwrap();
    assert_eq!(r.body().unwrap(), b"hello".to_vec());
    // single consumption: the cursor is exhausted, the extra bytes are gone
    assert_eq!(r.body(), Err(ResponseError::InvalidBody));
}

#[test]
fn test_body_is_single_consumption() {
    // bounded: a second read finds the stream drained and fails
    let mut r = HttpResponse::build(bytes(
        "HTTP/1.1 200 OK\r\nContent-Length: 5\r\n\r\nhelloWORLD",
    ))
    .unwrap();
    assert_eq!(r.body_as_string().unwrap(), "hello".to_string());
    assert_eq!(r.body_as_string(), Err(ResponseError::InvalidBody));

    // unbounded: a second read finds no further body data
    let mut r = HttpResponse::build(bytes("HTTP/1.1 200 OK\r\n\r\nall of it")).unwrap();
    assert_eq!(r.body().unwrap(), b"all of it".to_vec());
    assert_eq!(r.body().unwrap(), Vec::<u8>::new());
}

#[test]
fn test_body_without_content_length_reads_until_close() {
    let mut r = HttpResponse::build(bytes(
        "HTTP/1.1 200 OK\r\n\r\nhowever many bytes arrive",
    ))
    .unwrap();
    assert_eq!(r.body().unwrap(), b"however many bytes arrive".to_vec());

    let mut r = HttpResponse::build(bytes("HTTP/1.1 200 OK\r\n\r\n")).unwrap();
    assert_eq!(r.body().unwrap(), Vec::<u8>::new());
}

#[test]
fn test_body_with_unparsable_content_length_falls_back_to_close() {
    let mut r = HttpResponse::build(bytes(
        "HTTP/1.1 200 OK\r\nContent-Length: soon\r\n\r\nrest",
    ))
    .unwrap();
    assert_eq!(r.body().unwrap(), b"rest".to_vec());
}

#[test]
fn test_body_as_string_utf8() {
    let mut r = HttpResponse::build(bytes(
        "HTTP/1.1 200 OK\r\nContent-Length: 5\r\n\r\nhello",
    ))
    .unwrap();
    assert_eq!(r.body_as_string().unwrap(), "hello".to_string());
}

#[test]
fn test_body_as_string_invalid_utf8_fails() {
    let mut data = bytes("HTTP/1.1 200 OK\r\n\r\n");
    data.push(0xff);
    data.push(0xfe);
    let mut r = HttpResponse::build(data).unwrap();
    assert_eq!(r.body_as_string(), Err(ResponseError::InvalidBody));
}

#[test]
fn test_lf_only_line_endings_accepted() {
    let mut r = HttpResponse::build(bytes("HTTP/1.1 200 OK\nA: b\n\nbody")).unwrap();
    assert_eq!(r.status, StatusCode::Ok200);
    assert_eq!(r.headers.get("A"), Some(&"b".to_string()));
    assert_eq!(r.body().unwrap(), b"body".to_vec());
}

#[test]
fn test_status_code_classification() {
    assert!(StatusCode::Ok200.is_success());
    assert!(StatusCode::NoContent204.is_success());
    assert!(StatusCode::ImUsed226.is_success());
    assert!(!StatusCode::Continue100.is_success());
    assert!(!StatusCode::MovedPermanently301.is_success());
    assert!(!StatusCode::NotFound404.is_success());
    assert!(!StatusCode::InternalServerError500.is_success());
}

#[test]
fn test_status_code_conversion() {
    assert_eq!(StatusCode::try_from(200), Ok(StatusCode::Ok200));
    assert_eq!(StatusCode::try_from(404), Ok(StatusCode::NotFound404));
    assert_eq!(StatusCode::try_from(511), Ok(StatusCode::NetworkAuthenticationRequired511));
    assert!(StatusCode::try_from(306).is_err());
    assert!(StatusCode::try_from(418).is_err());
    assert!(StatusCode::try_from(509).is_err());
    assert!(StatusCode::try_from(999).is_err());
    assert!(StatusCode::try_from(0).is_err());
}

#[test]
fn test_status_code_text() {
    assert_eq!(StatusCode::Ok200.as_str(), "200 OK");
    assert_eq!(StatusCode::NotFound404.as_str(), "404 Not Found");
    assert_eq!(
        StatusCode::NetworkAuthenticationRequired511.as_str(),
        "511 Network Authentication Required"
    );
}
