use base64::Engine;
use multi_ip_proxy::auth::auth_challenge;
use multi_ip_proxy::proxy::MultiIPProxy;

fn proxy() -> MultiIPProxy {
    MultiIPProxy::new(vec!["10.0.0.1".to_string()], "alice", "secret")
}

fn encode(credentials: &str) -> String {
    base64::engine::general_purpose::STANDARD.encode(credentials)
}

#[test]
fn allow_exact_expected_header() {
    let p = proxy();
    let header = format!("Basic {}", encode("alice:secret"));
    assert!(p.verify_authentication(Some(&header)));
    assert!(!p.request_filter(Some(&header)));
}

#[test]
fn deny_missing_header() {
    let p = proxy();
    assert!(!p.verify_authentication(None));
    assert!(p.request_filter(None));
}

#[test]
fn deny_empty_header() {
    let p = proxy();
    assert!(!p.verify_authentication(Some("")));
}

#[test]
fn deny_wrong_scheme_token() {
    let p = proxy();
    let bearer = format!("Bearer {}", encode("alice:secret"));
    assert!(!p.verify_authentication(Some(&bearer)));
    let lowercase = format!("basic {}", encode("alice:secret"));
    assert!(!p.verify_authentication(Some(&lowercase)));
}

#[test]
fn deny_wrong_credentials() {
    let p = proxy();
    let wrong_pass = format!("Basic {}", encode("alice:wrong"));
    assert!(!p.verify_authentication(Some(&wrong_pass)));
    let wrong_user = format!("Basic {}", encode("bob:secret"));
    assert!(!p.verify_authentication(Some(&wrong_user)));
}

#[test]
fn deny_unencoded_credentials() {
    let p = proxy();
    assert!(!p.verify_authentication(Some("Basic alice:secret")));
}

#[test]
fn filter_leaves_counter_untouched() {
    let p = proxy();
    assert_eq!(p.request_count(), 0);
    assert!(p.request_filter(None));
    assert_eq!(p.request_count(), 0);
}

#[test]
fn challenge_contents() {
    let c = auth_challenge();
    assert_eq!(c.status, 407);
    assert_eq!(c.proxy_authenticate, "Basic realm=\"Proxy\"");
    assert_eq!(c.content_type, "text/plain");
    assert_eq!(c.body, "Proxy Authentication Required");
}
