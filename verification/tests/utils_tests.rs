use clienter::utils::{split, triple_split, tuple_split, tuple_split_parse};

#[test]
fn test_array_split() {
    let s = "hello world again yes";
    let v = split::<4>(s, " ").unwrap();
    let (a, b, c, d) = (v[0], v[1], v[2], v[3]);
    assert_eq!(a, "hello");
    assert_eq!(b, "world");
    assert_eq!(c, "again");
    assert_eq!(d, "yes");
}

#[test]
fn test_array_split_not_enough() {
    let s = "hello world";
    let result = split::<3>(s, " ");
    assert_eq!(result, None);
}

#[test]
fn test_array_split_too_many() {
    let s = "hello world again yes";
    let v = split::<3>(s, " ").unwrap();
    let (a, b, c) = (v[0], v[1], v[2]);
    assert_eq!(a, "hello");
    assert_eq!(b, "world");
    assert_eq!(c, "again yes");
}

#[test]
fn test_tuple_split() {
    let s = "hello://world";
    let (left, right) = tuple_split(s, "://").unwrap();
    assert_eq!(left, "hello");
    assert_eq!(right, "world");
}

#[test]
fn test_tuple_split_not_found() {
    let s = "hello";
    let result = tuple_split(s, "://");
    assert_eq!(result, None);
}

#[test]
fn test_tuple_split_empty_right() {
    let s = "hello://";
    let (left, right) = tuple_split(s, "://").unwrap();
    assert_eq!(left, "hello");
    assert_eq!(right, "");
}

#[test]
fn test_tuple_split_empty_left() {
    let s = "://world";
    let (left, right) = tuple_split(s, "://").unwrap();
    assert_eq!(left, "");
    assert_eq!(right, "world");
}

#[test]
fn test_tuple_split_empty_both() {
    let s = "://";
    let (left, right) = tuple_split(s, "://").unwrap();
    assert_eq!(left, "");
    assert_eq!(right, "");
}

#[test]
fn test_tuple_split_empty_input() {
    let s = "";
    let result = tuple_split(s, "://");
    assert_eq!(result, None);
}

#[test]
fn test_triple_split_parts() {
    let (a, b, c) = triple_split("a:b:c", ":").unwrap();
    assert_eq!(a, "a");
    assert_eq!(b, "b");
    assert_eq!(c, "c");
    assert_eq!(triple_split("a:b", ":"), None);
    let (a, b, c) = triple_split("HTTP/1.1 200 OK I promise", " ").unwrap();
    assert_eq!(a, "HTTP/1.1");
    assert_eq!(b, "200");
    assert_eq!(c, "OK I promise");
}

#[test]
fn test_tuple_split_parse_port() {
    let (host, port) = tuple_split_parse("localhost:8080", ":").unwrap();
    assert_eq!(host, "localhost");
    assert_eq!(port, 8080);
    assert_eq!(tuple_split_parse("localhost:notaport", ":"), None);
    assert_eq!(tuple_split_parse("localhost:99999", ":"), None);
    assert_eq!(tuple_split_parse("localhost", ":"), None);
}

#[test]
fn test_parse_usize_grammar() {
    assert_eq!(clienter::parse_usize("0"), Some(0));
    assert_eq!(clienter::parse_usize("+123456"), Some(123456));
    assert_eq!(clienter::parse_usize("soon"), None);
    assert_eq!(clienter::parse_usize(""), None);
}

#[test]
fn test_trim_removes_surrounding_whitespace() {
    assert_eq!(clienter::text::trim("  a b\t\r\n"), "a b");
    assert_eq!(clienter::text::trim("ab"), "ab");
    assert_eq!(clienter::text::trim(" \t "), "");
    assert_eq!(clienter::text::trim(""), "");
}

#[test]
fn test_parse_u16_grammar() {
    assert_eq!(clienter::parse_u16("80"), Some(80));
    assert_eq!(clienter::parse_u16("+80"), Some(80));
    assert_eq!(clienter::parse_u16("0080"), Some(80));
    assert_eq!(clienter::parse_u16("65535"), Some(65535));
    assert_eq!(clienter::parse_u16("65536"), None);
    assert_eq!(clienter::parse_u16(""), None);
    assert_eq!(clienter::parse_u16("+"), None);
    assert_eq!(clienter::parse_u16("-1"), None);
    assert_eq!(clienter::parse_u16("1 2"), None);
}
