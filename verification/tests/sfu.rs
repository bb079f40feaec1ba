use freeq::sfu::{api_base, api_base_from_server, map_scheme, normalize_server, sfu_url_from_server};

#[test]
fn sfu_wss_irc_to_https_avmoq() {
    let u = sfu_url_from_server("wss://irc.freeq.at/irc").unwrap();
    assert_eq!(u.as_str(), "https://irc.freeq.at/av/moq");
}

#[test]
fn sfu_https_stays_https() {
    let u = sfu_url_from_server("https://irc.freeq.at").unwrap();
    assert_eq!(u.as_str(), "https://irc.freeq.at/av/moq");
}

#[test]
fn sfu_http_stays_http() {
    let u = sfu_url_from_server("http://localhost").unwrap();
    assert_eq!(u.as_str(), "http://localhost/av/moq");
}

#[test]
fn sfu_raw_host_port_to_http() {
    let u = sfu_url_from_server("localhost:6667").unwrap();
    assert_eq!(u.as_str(), "http://localhost:6667/av/moq");
}

#[test]
fn sfu_strips_existing_path_and_query() {
    let u = sfu_url_from_server("wss://irc.freeq.at/irc?token=abc").unwrap();
    assert_eq!(u.path(), "/av/moq");
}

#[test]
fn sfu_preserves_nondefault_port() {
    let u = sfu_url_from_server("wss://example.com:8443/irc").unwrap();
    assert_eq!(u.host_str(), Some("example.com"));
    assert_eq!(u.port(), Some(8443));
    assert_eq!(u.path(), "/av/moq");
}

#[test]
fn sfu_trims_surrounding_whitespace() {
    let u = sfu_url_from_server("  wss://irc.freeq.at/irc  ").unwrap();
    assert_eq!(u.as_str(), "https://irc.freeq.at/av/moq");
}

#[test]
fn sfu_rejects_empty_string() {
    let err = sfu_url_from_server("").err().expect("expected error");
    assert!(err.contains("empty"));
}

#[test]
fn sfu_rejects_only_whitespace() {
    let err = sfu_url_from_server("   ").err().expect("expected error");
    assert!(err.contains("empty"));
}

#[test]
fn sfu_rejects_scheme_only_garbage() {
    let err = sfu_url_from_server("wss://").err().expect("expected error");
    assert!(err.contains("host"), "got: {err}");
}

#[test]
fn sfu_rejects_double_slash_only() {
    let err = sfu_url_from_server("://").err().expect("expected error");
    assert!(err.contains("parsing") || err.contains("host"));
}

#[test]
fn sfu_garbage_with_unknown_scheme_does_not_panic() {
    let result = sfu_url_from_server("file:///etc/passwd");
    if let Ok(u) = result {
        assert_eq!(u.host_str(), Some("file"));
        assert_eq!(u.path(), "/av/moq");
    }
}

#[test]
fn sfu_invalid_port_errors() {
    let err = sfu_url_from_server("wss://example.com:99999/irc")
        .err()
        .expect("expected error");
    assert!(err.contains("parsing"), "got: {err}");
}

#[test]
fn normalization_and_scheme_mapping() {
    assert_eq!(normalize_server(" host:1 ").unwrap(), "ws://host:1");
    assert_eq!(normalize_server("https://x").unwrap(), "https://x");
    assert_eq!(normalize_server("\t").unwrap_err(), "server URL is empty");
    assert_eq!(map_scheme("wss"), Some("https"));
    assert_eq!(map_scheme("https"), Some("https"));
    assert_eq!(map_scheme("ws"), Some("http"));
    assert_eq!(map_scheme("http"), Some("http"));
    assert_eq!(map_scheme("file"), None);
}

#[test]
fn api_base_examples() {
    assert_eq!(api_base_from_server("wss://irc.freeq.at/irc").unwrap(), "https://irc.freeq.at");
    assert_eq!(api_base_from_server("localhost:6667").unwrap(), "http://localhost:6667");
    assert_eq!(api_base_from_server("wss://h:443/x").unwrap(), "https://h");
    assert!(api_base_from_server("").unwrap_err().contains("empty"));
    assert_eq!(api_base("https", "h", Some(8443)), "https://h:8443");
    assert_eq!(api_base("http", "h", None), "http://h");
}

#[test]
fn error_texts_quote_the_setting_as_debug_does() {
    assert_eq!(sfu_url_from_server("wss://").unwrap_err(), "parsing server URL for SFU: \"wss://\": empty host");
    let e = sfu_url_from_server("wss://a\"b:99999").unwrap_err();
    assert!(e.starts_with("parsing server URL for SFU: \"wss://a\\\"b:99999\": "), "got: {e}");
}
