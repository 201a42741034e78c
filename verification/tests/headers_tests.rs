use clienter::HttpHeaders;

#[test]
fn test_combine_is_right_biased_and_non_mutating() {
    let mut base = HttpHeaders::new();
    base.insert("A".to_string(), "1".to_string());
    base.insert("B".to_string(), "2".to_string());
    let mut overlay = HttpHeaders::new();
    overlay.insert("B".to_string(), "3".to_string());
    overlay.insert("C".to_string(), "4".to_string());

    let combined = base.combine(&overlay);
    assert_eq!(combined.get("A"), Some(&"1".to_string()));
    assert_eq!(combined.get("B"), Some(&"3".to_string()));
    assert_eq!(combined.get("C"), Some(&"4".to_string()));

    // both inputs are left as they were
    assert_eq!(base.get("A"), Some(&"1".to_string()));
    assert_eq!(base.get("B"), Some(&"2".to_string()));
    assert_eq!(base.get("C"), None);
    assert_eq!(overlay.get("B"), Some(&"3".to_string()));
    assert_eq!(overlay.get("C"), Some(&"4".to_string()));
    assert_eq!(overlay.get("A"), None);
}

#[test]
fn test_insert_overwrites() {
    let mut h = HttpHeaders::new();
    h.insert("Host".to_string(), "a".to_string());
    h.insert("Host".to_string(), "b".to_string());
    assert_eq!(h.get("Host"), Some(&"b".to_string()));
    assert_eq!(h.iter().len(), 1);
}

#[test]
fn test_setters_and_get() {
    let mut h = HttpHeaders::new();
    h.set_host("example.com".to_string());
    h.set_user_agent("agent".to_string());
    h.set_accept("*/*".to_string());
    h.set_accept_language("en".to_string());
    h.set_accept_encoding("gzip".to_string());
    assert_eq!(h.get("Host"), Some(&"example.com".to_string()));
    assert_eq!(h.get("User-Agent"), Some(&"agent".to_string()));
    assert_eq!(h.get("Accept"), Some(&"*/*".to_string()));
    assert_eq!(h.get("Accept-Language"), Some(&"en".to_string()));
    assert_eq!(h.get("Accept-Encoding"), Some(&"gzip".to_string()));
    assert_eq!(h.get("Missing"), None);
}

#[test]
fn test_default_headers_content() {
    let h = HttpHeaders::default();
    assert_eq!(h.get("User-Agent"), Some(&"Clienter/1.0 (Rust)".to_string()));
    assert_eq!(h.get("Accept"), Some(&"*/*".to_string()));
    assert_eq!(h.get("Accept-Language"), Some(&"en-US".to_string()));
    assert_eq!(h.get("Accept-Encoding"), Some(&"gzip".to_string()));
    assert_eq!(h.get("Connection"), Some(&"keep-alive".to_string()));
    assert_eq!(h.get("Upgrade-Insecure-Requests"), Some(&"1".to_string()));
    assert_eq!(h.get("Sec-Fetch-Dest"), Some(&"document".to_string()));
    assert_eq!(h.get("Host"), Some(&"localhost".to_string()));
    assert_eq!(h.iter().len(), 8);
}
