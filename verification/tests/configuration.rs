use multi_ip_proxy::config::ProxyConfig;

fn config(ips: Vec<&str>, user: &str, pass: &str) -> ProxyConfig {
    ProxyConfig {
        ip_addresses: ips.iter().map(|s| s.to_string()).collect(),
        username: user.to_string(),
        password: pass.to_string(),
        listen_address: "0.0.0.0:7777".to_string(),
    }
}

#[test]
fn parse_single_address() {
    assert_eq!(ProxyConfig::parse_ip_pool("127.0.0.1"), vec!["127.0.0.1"]);
}

#[test]
fn parse_trims_entries_and_drops_empty_ones() {
    let pool = ProxyConfig::parse_ip_pool(" 1.2.3.4 , 5.6.7.8 ,, ");
    assert_eq!(pool, vec!["1.2.3.4", "5.6.7.8"]);
}

#[test]
fn parse_empty_string_yields_empty_pool() {
    assert!(ProxyConfig::parse_ip_pool("").is_empty());
}

#[test]
fn parse_only_commas_and_spaces_yields_empty_pool() {
    assert!(ProxyConfig::parse_ip_pool(" , ,\t, ").is_empty());
}

#[test]
fn parse_trims_unicode_whitespace() {
    let pool = ProxyConfig::parse_ip_pool("\u{a0}1.2.3.4\u{2003}, \u{3000}5.6.7.8\u{85}");
    assert_eq!(pool, vec!["1.2.3.4", "5.6.7.8"]);
}

#[test]
fn parse_keeps_order_and_duplicates() {
    let pool = ProxyConfig::parse_ip_pool("9.9.9.9,1.1.1.1,9.9.9.9");
    assert_eq!(pool, vec!["9.9.9.9", "1.1.1.1", "9.9.9.9"]);
}

#[test]
fn validate_accepts_complete_configuration() {
    assert!(config(vec!["127.0.0.1"], "user", "pass").validate().is_ok());
}

#[test]
fn validate_rejects_empty_pool() {
    let err = config(vec![], "user", "pass").validate().unwrap_err();
    assert_eq!(err, "IP_POOL is empty. Please set IP_POOL environment variable.");
}

#[test]
fn validate_rejects_empty_username() {
    let err = config(vec!["127.0.0.1"], "", "pass").validate().unwrap_err();
    assert_eq!(err, "PROXY_USER cannot be empty.");
}

#[test]
fn validate_rejects_empty_password() {
    let err = config(vec!["127.0.0.1"], "user", "").validate().unwrap_err();
    assert_eq!(err, "PROXY_PASS cannot be empty.");
}
