use indexmap::IndexMap;
use peregrine::config::schema::{
    default_health_path, default_listen, default_log_format, default_static_dir, AppConfig, BasicAuthConfig,
    CorsConfig, ProxyRoute, RateLimitConfig,
};
use peregrine::config::validate::{validate_config, ConfigError};

fn base() -> AppConfig {
    AppConfig {
        listen: default_listen(),
        health_path: default_health_path(),
        static_dir: default_static_dir(),
        proxy: vec![],
        log_format: default_log_format(),
        headers: IndexMap::new(),
        security_headers: false,
        cors: None,
        rate_limit: None,
    }
}

fn route(path: &str, upstream: &str) -> ProxyRoute {
    ProxyRoute { path: path.to_string(), upstream: upstream.to_string(), rate_limit: None, basic_auth: None }
}

fn cors(origin: Option<&str>, methods: Option<&str>, headers: Option<&str>) -> Option<CorsConfig> {
    Some(CorsConfig {
        allow_origin: origin.map(|s| s.to_string()),
        allow_methods: methods.map(|s| s.to_string()),
        allow_headers: headers.map(|s| s.to_string()),
    })
}

#[test]
fn defaults_match_documentation() {
    assert_eq!(default_listen(), "0.0.0.0:8080");
    assert_eq!(default_health_path(), "/__health__");
    assert_eq!(default_static_dir(), "./dist");
    assert_eq!(default_log_format(), "text");
}

#[test]
fn readme_example_config_is_valid() {
    let mut c = base();
    c.listen = "0.0.0.0:7777".to_string();
    c.health_path = "/health".to_string();
    c.security_headers = true;
    c.headers.insert("x-powered-by".to_string(), "peregrine".to_string());
    c.headers.insert("x-demo".to_string(), "my_hello".to_string());
    c.cors = cors(Some("*"), Some("GET,POST,OPTIONS"), Some("content-type,authorization"));
    c.rate_limit = Some(RateLimitConfig { requests: 20, window_seconds: 60 });
    let mut api = route("/api", "http://127.0.0.1:9000");
    api.rate_limit = Some(RateLimitConfig { requests: 3, window_seconds: 600 });
    api.basic_auth = Some(BasicAuthConfig { username: "admin".to_string(), password: "123456".to_string() });
    c.proxy = vec![api, route("/auth", "http://127.0.0.1:9999"), route("/doc", "http://127.0.0.1:9888")];
    assert!(validate_config(&c).is_ok());
}

#[test]
fn health_path_must_start_with_slash() {
    let mut c = base();
    c.health_path = "health".to_string();
    assert!(matches!(validate_config(&c), Err(ConfigError::HealthPathNoSlash)));
}

#[test]
fn log_format_text_or_json() {
    let mut c = base();
    c.log_format = "json".to_string();
    assert!(validate_config(&c).is_ok());
    c.log_format = "xml".to_string();
    assert!(matches!(validate_config(&c), Err(ConfigError::LogFormat { ref format }) if format == "xml"));
}

#[test]
fn header_names_and_values_checked() {
    let mut c = base();
    c.headers.insert("bad header".to_string(), "v".to_string());
    assert!(matches!(validate_config(&c), Err(ConfigError::HeaderName { ref name }) if name == "bad header"));
    let mut c = base();
    c.headers.insert("Content-Length".to_string(), "5".to_string());
    assert!(matches!(validate_config(&c), Err(ConfigError::ContentLengthHeader)));
    let mut c = base();
    c.headers.insert("x-a".to_string(), "line\nbreak".to_string());
    assert!(matches!(validate_config(&c), Err(ConfigError::HeaderValue { ref name }) if name == "x-a"));
    let mut c = base();
    c.headers.insert("X-Upper".to_string(), "tab\tok".to_string());
    assert!(validate_config(&c).is_ok());
}

#[test]
fn first_bad_header_is_reported() {
    let mut c = base();
    c.headers.insert("x-ok".to_string(), "1".to_string());
    c.headers.insert("x-bad".to_string(), "\u{7f}".to_string());
    c.headers.insert("bad name".to_string(), "1".to_string());
    assert!(matches!(validate_config(&c), Err(ConfigError::HeaderValue { ref name }) if name == "x-bad"));
}

#[test]
fn cors_origin_checked() {
    let mut c = base();
    c.cors = cors(Some("  "), None, None);
    assert!(matches!(validate_config(&c), Err(ConfigError::CorsOriginEmpty)));
    c.cors = cors(Some("https://example.com"), None, None);
    assert!(validate_config(&c).is_ok());
    c.cors = cors(Some("example.com"), None, None);
    assert!(matches!(validate_config(&c), Err(ConfigError::CorsOriginInvalid)));
    c.cors = cors(Some("ftp://example.com"), None, None);
    assert!(matches!(validate_config(&c), Err(ConfigError::CorsOriginScheme { ref scheme }) if scheme == "ftp"));
}

#[test]
fn cors_methods_checked() {
    let mut c = base();
    c.cors = cors(None, Some(" GET , POST,OPTIONS "), None);
    assert!(validate_config(&c).is_ok());
    c.cors = cors(None, Some(" \t"), None);
    assert!(matches!(validate_config(&c), Err(ConfigError::CorsMethodsEmpty)));
    c.cors = cors(None, Some("GET,,POST"), None);
    assert!(matches!(validate_config(&c), Err(ConfigError::CorsMethodEmpty)));
    c.cors = cors(None, Some("GET,PO ST"), None);
    assert!(matches!(validate_config(&c), Err(ConfigError::CorsMethod { ref method }) if method == "PO ST"));
    c.cors = cors(None, Some("GET,"), None);
    assert!(matches!(validate_config(&c), Err(ConfigError::CorsMethodEmpty)));
}

#[test]
fn cors_headers_checked() {
    let mut c = base();
    c.cors = cors(None, None, Some("content-type, Authorization"));
    assert!(validate_config(&c).is_ok());
    c.cors = cors(None, None, Some(""));
    assert!(matches!(validate_config(&c), Err(ConfigError::CorsHeadersEmpty)));
    c.cors = cors(None, None, Some("a, ,b"));
    assert!(matches!(validate_config(&c), Err(ConfigError::CorsHeaderEmpty)));
    c.cors = cors(None, None, Some("x-ok,x(bad)"));
    assert!(matches!(validate_config(&c), Err(ConfigError::CorsHeader { ref header }) if header == "x(bad)"));
}

#[test]
fn rate_limits_must_be_positive() {
    let mut c = base();
    c.rate_limit = Some(RateLimitConfig { requests: 0, window_seconds: 1 });
    assert!(matches!(validate_config(&c), Err(ConfigError::RateLimitRequestsZero)));
    c.rate_limit = Some(RateLimitConfig { requests: 1, window_seconds: 0 });
    assert!(matches!(validate_config(&c), Err(ConfigError::RateLimitWindowZero)));
    let mut c = base();
    let mut r = route("/api", "http://127.0.0.1:1");
    r.rate_limit = Some(RateLimitConfig { requests: 0, window_seconds: 0 });
    c.proxy = vec![r];
    assert!(matches!(validate_config(&c), Err(ConfigError::RateLimitRequestsZero)));
}

#[test]
fn proxy_routes_checked() {
    let mut c = base();
    c.proxy = vec![route("api", "http://127.0.0.1:1")];
    assert!(matches!(validate_config(&c), Err(ConfigError::ProxyPrefix { ref prefix }) if prefix == "api"));
    c.proxy = vec![route("/api", "not a url")];
    assert!(matches!(validate_config(&c), Err(ConfigError::UpstreamUrl { ref upstream, .. }) if upstream == "not a url"));
    c.proxy = vec![route("/api", "ws://127.0.0.1:1")];
    assert!(matches!(validate_config(&c), Err(ConfigError::UpstreamScheme { ref scheme, .. }) if scheme == "ws"));
    c.proxy = vec![route("/api", "http://a"), route("/doc", "https://b"), route("/api", "http://c")];
    assert!(matches!(validate_config(&c), Err(ConfigError::DuplicateProxyPath { ref path }) if path == "/api"));
}

#[test]
fn basic_auth_credentials_checked() {
    let mut c = base();
    let mut r = route("/api", "http://127.0.0.1:1");
    r.basic_auth = Some(BasicAuthConfig { username: " ".to_string(), password: "x".to_string() });
    c.proxy = vec![r];
    assert!(matches!(validate_config(&c), Err(ConfigError::BasicAuthUsernameEmpty)));
    let mut r = route("/api", "http://127.0.0.1:1");
    r.basic_auth = Some(BasicAuthConfig { username: "u".to_string(), password: "".to_string() });
    c.proxy = vec![r];
    assert!(matches!(validate_config(&c), Err(ConfigError::BasicAuthPasswordEmpty)));
    let mut r = route("/api", "http://127.0.0.1:1");
    r.basic_auth = Some(BasicAuthConfig { username: "u".to_string(), password: " ".to_string() });
    c.proxy = vec![r];
    assert!(validate_config(&c).is_ok());
}

#[test]
fn checks_run_in_order() {
    let mut c = base();
    c.health_path = "x".to_string();
    c.log_format = "xml".to_string();
    c.rate_limit = Some(RateLimitConfig { requests: 0, window_seconds: 0 });
    assert!(matches!(validate_config(&c), Err(ConfigError::HealthPathNoSlash)));
    c.health_path = "/x".to_string();
    assert!(matches!(validate_config(&c), Err(ConfigError::LogFormat { .. })));
}
