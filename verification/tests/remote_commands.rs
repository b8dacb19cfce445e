use connected::remote::{validate_open_url, CommandErrorKind};

#[test]
fn test_open_url_rejects_non_http() {
    let err = validate_open_url("file:///etc/passwd").unwrap_err();
    assert_eq!(err.kind(), CommandErrorKind::InvalidInput);

    let err = validate_open_url("ftp://example.com").unwrap_err();
    assert_eq!(err.kind(), CommandErrorKind::InvalidInput);
}

#[test]
fn open_url_accepts_http_and_https() {
    assert!(validate_open_url("http://example.com").is_ok());
    assert!(validate_open_url("https://example.com/path?q=1").is_ok());
    assert!(validate_open_url("https:/example.com").is_err());
    assert!(validate_open_url("").is_err());
    assert!(validate_open_url("HTTP://example.com").is_err());
}
