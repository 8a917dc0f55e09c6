use sherion::platform::{is_safe_mailto, is_safe_url};

#[test]
fn allows_http_and_https_urls() {
    assert!(is_safe_url("https://example.com/path"));
    assert!(is_safe_url("http://localhost:8080"));
}

#[test]
fn allows_mailto_urls() {
    assert!(is_safe_url("mailto:user@example.com"));
}

#[test]
fn rejects_file_and_javascript_urls() {
    assert!(!is_safe_url("file:///etc/passwd"));
    assert!(!is_safe_url("javascript:alert(1)"));
    assert!(!is_safe_url("data:text/html,hello"));
}

#[test]
fn rejects_mailto_header_injection() {
    assert!(!is_safe_url("mailto:a@b.com%0aBcc:c@evil.com"));
    assert!(!is_safe_url("mailto:a@b.com?subject=hi&body=bye"));
    assert!(is_safe_url("mailto:user@example.com"));
}

#[test]
fn rejects_empty_scheme_only_urls() {
    assert!(!is_safe_url("https://"));
    assert!(!is_safe_url(""));
}

#[test]
fn mailto_needs_an_address() {
    assert!(!is_safe_mailto("mailto:"));
    assert!(is_safe_mailto("mailto:x@y"));
}
