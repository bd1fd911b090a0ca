use multi_ip_proxy::target::extract_target_info;

#[test]
fn https_without_port_defaults_to_443_with_tls() {
    let t = extract_target_info(Some("example.com".to_string()), Some("https".to_string()), None);
    assert_eq!(t.host, "example.com");
    assert_eq!(t.port, 443);
    assert!(t.use_tls);
}

#[test]
fn http_without_port_defaults_to_80_without_tls() {
    let t = extract_target_info(Some("example.com".to_string()), Some("http".to_string()), None);
    assert_eq!(t.host, "example.com");
    assert_eq!(t.port, 80);
    assert!(!t.use_tls);
}

#[test]
fn explicit_port_wins_over_scheme_default() {
    let t = extract_target_info(
        Some("example.com:8443".to_string()),
        Some("https".to_string()),
        Some(8443),
    );
    assert_eq!(t.host, "example.com");
    assert_eq!(t.port, 8443);
    assert!(t.use_tls);

    let u = extract_target_info(
        Some("example.com:8080".to_string()),
        Some("http".to_string()),
        Some(8080),
    );
    assert_eq!(u.host, "example.com");
    assert_eq!(u.port, 8080);
    assert!(!u.use_tls);
}

#[test]
fn host_excludes_port_and_userinfo() {
    let t = extract_target_info(Some("user:pw@example.com:8080".to_string()), None, Some(8080));
    assert_eq!(t.host, "example.com");

    let u = extract_target_info(Some("alice@example.com".to_string()), None, None);
    assert_eq!(u.host, "example.com");
}

#[test]
fn bracketed_address_literal_is_kept_whole() {
    let t = extract_target_info(Some("[2001:db8::1]:8443".to_string()), None, Some(8443));
    assert_eq!(t.host, "[2001:db8::1]");
    assert_eq!(t.port, 8443);

    let u = extract_target_info(Some("[::1]".to_string()), None, None);
    assert_eq!(u.host, "[::1]");
}

#[test]
fn missing_authority_resolves_to_localhost() {
    let t = extract_target_info(None, Some("http".to_string()), None);
    assert_eq!(t.host, "localhost");
}

#[test]
fn missing_scheme_means_no_tls_and_port_80() {
    let t = extract_target_info(Some("example.com".to_string()), None, None);
    assert!(!t.use_tls);
    assert_eq!(t.port, 80);
}
