use rangedl::url::is_url;

#[test]
fn urls_are_accepted() {
    assert_eq!(is_url("https://example.com/a/b/file.zip".to_string()), Ok(()));
    assert_eq!(is_url("http://example.com".to_string()), Ok(()));
    assert_eq!(is_url("ftp://example.com/x".to_string()), Ok(()));
    assert_eq!(is_url("data:text/plain,HelloWorld".to_string()), Ok(()));
}

#[test]
fn a_relative_url_is_refused() {
    assert_eq!(is_url("example.com".to_string()), Err("relative URL without a base".to_string()));
    assert_eq!(is_url("/a/b".to_string()), Err("relative URL without a base".to_string()));
    assert_eq!(is_url("".to_string()), Err("relative URL without a base".to_string()));
}

#[test]
fn a_url_without_host_is_refused() {
    assert_eq!(is_url("http://".to_string()), Err("empty host".to_string()));
}

#[test]
fn a_bad_port_is_refused() {
    assert_eq!(is_url("http://example.com:x/".to_string()), Err("invalid port number".to_string()));
    assert_eq!(
        is_url("http://example.com:99999/".to_string()),
        Err("invalid port number".to_string())
    );
}

#[test]
fn a_bad_address_is_refused() {
    assert_eq!(is_url("http://[::1/".to_string()), Err("invalid IPv6 address".to_string()));
}
