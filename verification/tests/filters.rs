use base64::Engine;
use indexmap::IndexMap;
use peregrine::config::schema::{AppConfig, BasicAuthConfig, CorsConfig, RateLimitConfig};
use peregrine::filter::auth::check_basic_auth;
use peregrine::filter::cors::{apply_cors_headers, is_preflight};
use peregrine::filter::rate_limit::RateLimiter;
use peregrine::filter::response_headers::response_headers;
use peregrine::filter::security_headers::apply_security_headers;

fn creds() -> BasicAuthConfig {
    BasicAuthConfig { username: "admin".to_string(), password: "secret".to_string() }
}

fn basic(text: &str) -> Vec<u8> {
    format!("Basic {}", base64::engine::general_purpose::STANDARD.encode(text)).into_bytes()
}

#[test]
fn basic_auth_without_config_passes() {
    assert!(check_basic_auth(None, None));
    assert!(check_basic_auth(Some(b"garbage"), None));
}

#[test]
fn basic_auth_accepts_matching_credentials() {
    let c = creds();
    assert!(check_basic_auth(Some(b"Basic YWRtaW46c2VjcmV0"), Some(&c)));
    let v = basic("admin:secret");
    assert!(check_basic_auth(Some(&v), Some(&c)));
}

#[test]
fn basic_auth_rejects_other_credentials() {
    let c = creds();
    assert!(!check_basic_auth(None, Some(&c)));
    assert!(!check_basic_auth(Some(&basic("admin:wrong")), Some(&c)));
    assert!(!check_basic_auth(Some(&basic("admin:secret ")), Some(&c)));
    assert!(!check_basic_auth(Some(b"Bearer YWRtaW46c2VjcmV0"), Some(&c)));
    assert!(!check_basic_auth(Some(b"basic YWRtaW46c2VjcmV0"), Some(&c)));
    assert!(!check_basic_auth(Some(b"Basic not-base64!"), Some(&c)));
    assert!(!check_basic_auth(Some(b"Basic YWRtaW46c2VjcmV0\x01"), Some(&c)));
}

#[test]
fn basic_auth_compares_utf8_text() {
    let c = BasicAuthConfig { username: "ü".to_string(), password: "p".to_string() };
    assert!(check_basic_auth(Some(&basic("ü:p")), Some(&c)));
    let mut bad = b"Basic ".to_vec();
    bad.extend(base64::engine::general_purpose::STANDARD.encode([0xffu8, b':', b'p']).into_bytes());
    assert!(!check_basic_auth(Some(&bad), Some(&c)));
}

#[test]
fn cors_headers_use_defaults_and_overwrite() {
    let mut h = IndexMap::new();
    h.insert("access-control-allow-origin".to_string(), "old".to_string());
    h.insert("x-a".to_string(), "1".to_string());
    let cors = CorsConfig { allow_origin: None, allow_methods: Some("GET".to_string()), allow_headers: None };
    apply_cors_headers(&mut h, Some(&cors));
    let got: Vec<(String, String)> = h.into_iter().collect();
    assert_eq!(
        got,
        vec![
            ("access-control-allow-origin".to_string(), "*".to_string()),
            ("x-a".to_string(), "1".to_string()),
            ("access-control-allow-methods".to_string(), "GET".to_string()),
            ("access-control-allow-headers".to_string(), "content-type,authorization".to_string()),
        ]
    );
}

#[test]
fn cors_headers_absent_without_config() {
    let mut h: IndexMap<String, String> = IndexMap::new();
    apply_cors_headers(&mut h, None);
    assert!(h.is_empty());
}

#[test]
fn preflight_needs_options_origin_and_request_method() {
    let names = vec!["origin".to_string(), "access-control-request-method".to_string()];
    assert!(is_preflight("OPTIONS", &names));
    assert!(!is_preflight("GET", &names));
    assert!(!is_preflight("OPTIONS", &vec!["origin".to_string()]));
    assert!(!is_preflight("options", &names));
}

#[test]
fn security_headers_keep_configured_values() {
    let mut h = IndexMap::new();
    h.insert("x-frame-options".to_string(), "SAMEORIGIN".to_string());
    apply_security_headers(&mut h, true);
    assert_eq!(h.get("x-frame-options").unwrap(), "SAMEORIGIN");
    assert_eq!(h.get("x-content-type-options").unwrap(), "nosniff");
    assert_eq!(h.get("referrer-policy").unwrap(), "no-referrer");
    assert_eq!(h.len(), 3);
}

#[test]
fn security_headers_off_change_nothing() {
    let mut h: IndexMap<String, String> = IndexMap::new();
    apply_security_headers(&mut h, false);
    assert!(h.is_empty());
}

fn config() -> AppConfig {
    let mut headers = IndexMap::new();
    headers.insert("x-powered-by".to_string(), "peregrine".to_string());
    AppConfig {
        listen: "0.0.0.0:7777".to_string(),
        health_path: "/health".to_string(),
        static_dir: "./dist".to_string(),
        proxy: vec![],
        log_format: "text".to_string(),
        headers,
        security_headers: true,
        cors: Some(CorsConfig { allow_origin: Some("*".to_string()), allow_methods: None, allow_headers: None }),
        rate_limit: None,
    }
}

#[test]
fn response_headers_combine_config_security_and_cors() {
    let h = response_headers(&config());
    let names: Vec<&str> = h.keys().map(|k| k.as_str()).collect();
    assert_eq!(
        names,
        vec![
            "x-powered-by",
            "x-content-type-options",
            "x-frame-options",
            "referrer-policy",
            "access-control-allow-origin",
            "access-control-allow-methods",
            "access-control-allow-headers",
        ]
    );
    assert_eq!(h.get("x-powered-by").unwrap(), "peregrine");
    assert_eq!(h.get("access-control-allow-methods").unwrap(), "GET,POST,OPTIONS");
}

const SEC: u128 = 1_000_000_000;

#[test]
fn rate_limiter_allows_up_to_limit_per_window() {
    let mut rl = RateLimiter::new();
    let c = RateLimitConfig { requests: 3, window_seconds: 10 };
    let d1 = rl.check_at("1.2.3.4", "route:/api", Some(&c), 0);
    assert!(d1.allowed);
    assert_eq!(d1.limit, Some(3));
    assert_eq!(d1.remaining, Some(2));
    assert_eq!(d1.reset_after_secs, Some(10));
    assert_eq!(d1.retry_after_secs, None);
    let d2 = rl.check_at("1.2.3.4", "route:/api", Some(&c), 2 * SEC);
    assert_eq!(d2.remaining, Some(1));
    assert_eq!(d2.reset_after_secs, Some(8));
    let d3 = rl.check_at("1.2.3.4", "route:/api", Some(&c), 5 * SEC + 1);
    assert!(d3.allowed);
    assert_eq!(d3.remaining, Some(0));
    assert_eq!(d3.reset_after_secs, Some(4));
    let d4 = rl.check_at("1.2.3.4", "route:/api", Some(&c), 9 * SEC + SEC / 2);
    assert!(!d4.allowed);
    assert_eq!(d4.remaining, Some(0));
    assert_eq!(d4.reset_after_secs, Some(1));
    assert_eq!(d4.retry_after_secs, Some(1));
}

#[test]
fn rate_limiter_window_expiry_restores() {
    let mut rl = RateLimiter::new();
    let c = RateLimitConfig { requests: 1, window_seconds: 1 };
    assert!(rl.check_at("ip", "b", Some(&c), 0).allowed);
    assert!(!rl.check_at("ip", "b", Some(&c), SEC - 1).allowed);
    let d = rl.check_at("ip", "b", Some(&c), SEC);
    assert!(d.allowed);
    assert_eq!(d.remaining, Some(0));
}

#[test]
fn rate_limiter_keys_are_independent() {
    let mut rl = RateLimiter::new();
    let c = RateLimitConfig { requests: 1, window_seconds: 60 };
    assert!(rl.check_at("a", "route:/x", Some(&c), 0).allowed);
    assert!(rl.check_at("b", "route:/x", Some(&c), 0).allowed);
    assert!(rl.check_at("a", "route:/y", Some(&c), 0).allowed);
    assert!(!rl.check_at("a", "route:/x", Some(&c), 0).allowed);
}

#[test]
fn rate_limiter_without_config_allows_everything() {
    let mut rl = RateLimiter::new();
    for _ in 0..5 {
        let d = rl.check("ip", "b", None);
        assert!(d.allowed);
        assert_eq!(d.limit, None);
        assert_eq!(d.remaining, None);
        assert_eq!(d.reset_after_secs, None);
        assert_eq!(d.retry_after_secs, None);
    }
}

#[test]
fn rate_limiter_check_reads_the_clock() {
    let mut rl = RateLimiter::new();
    let c = RateLimitConfig { requests: 2, window_seconds: 3600 };
    assert!(rl.check("ip", "b", Some(&c)).allowed);
    assert!(rl.check("ip", "b", Some(&c)).allowed);
    let d = rl.check("ip", "b", Some(&c));
    assert!(!d.allowed);
    assert_eq!(d.retry_after_secs, d.reset_after_secs);
}
