use indexmap::IndexMap;
use peregrine::config::schema::{AppConfig, BasicAuthConfig, CorsConfig, ProxyRoute, RateLimitConfig};
use peregrine::filter::rate_limit::RateLimitDecision;
use peregrine::proxy::ctx::RequestContext;
use peregrine::proxy::router::MatchedRoute;
use peregrine::proxy::service::{
    forwarded_headers, response_filter_headers, too_many_requests_headers, upstream_target, IncomingRequest,
    Peregrine, RequestAction,
};
use peregrine::proxy::upstream::{build_http_peer, upstream_authority, UpstreamError};

fn config() -> AppConfig {
    let mut headers = IndexMap::new();
    headers.insert("x-powered-by".to_string(), "peregrine".to_string());
    let mut api = ProxyRoute {
        path: "/api".to_string(),
        upstream: "http://127.0.0.1:9000".to_string(),
        rate_limit: Some(RateLimitConfig { requests: 2, window_seconds: 600 }),
        basic_auth: Some(BasicAuthConfig { username: "admin".to_string(), password: "secret".to_string() }),
    };
    api.path = "/api".to_string();
    AppConfig {
        listen: "0.0.0.0:7777".to_string(),
        health_path: "/health".to_string(),
        static_dir: "./dist".to_string(),
        proxy: vec![
            api,
            ProxyRoute { path: "/doc".to_string(), upstream: "http://127.0.0.1:9888".to_string(), rate_limit: None, basic_auth: None },
        ],
        log_format: "text".to_string(),
        headers,
        security_headers: false,
        cors: Some(CorsConfig { allow_origin: None, allow_methods: None, allow_headers: None }),
        rate_limit: Some(RateLimitConfig { requests: 1, window_seconds: 60 }),
    }
}

fn request(method: &str, path: &str, names: &[&str], auth: Option<&[u8]>) -> IncomingRequest {
    IncomingRequest {
        method: method.to_string(),
        path: path.to_string(),
        header_names: names.iter().map(|s| s.to_string()).collect(),
        authorization: auth.map(|a| a.to_vec()),
        client_ip: "10.0.0.1".to_string(),
    }
}

const AUTH: &[u8] = b"Basic YWRtaW46c2VjcmV0";

#[test]
fn preflight_comes_first() {
    let mut p = Peregrine::new(config());
    let a = p.request_action(&request("OPTIONS", "/api/x", &["origin", "access-control-request-method"], None));
    match a {
        RequestAction::Preflight { headers } => {
            assert_eq!(headers.get("access-control-allow-origin").unwrap(), "*");
            assert_eq!(headers.get("x-powered-by").unwrap(), "peregrine");
        },
        _ => panic!("expected preflight"),
    }
}

#[test]
fn health_path_answers_health() {
    let mut p = Peregrine::new(config());
    assert!(matches!(p.request_action(&request("GET", "/health", &[], None)), RequestAction::Health { .. }));
    assert!(!matches!(p.request_action(&request("GET", "/health/x", &[], None)), RequestAction::Health { .. }));
}

#[test]
fn protected_route_requires_credentials() {
    let mut p = Peregrine::new(config());
    match p.request_action(&request("GET", "/api/users", &[], None)) {
        RequestAction::Unauthorized { headers } => {
            assert_eq!(headers.get("www-authenticate").unwrap(), "Basic Required");
        },
        _ => panic!("expected 401"),
    }
}

#[test]
fn route_limit_overrides_global_and_refuses_with_429() {
    let mut p = Peregrine::new(config());
    for remaining in [1u64, 0] {
        match p.request_action(&request("GET", "/api/users", &[], Some(AUTH))) {
            RequestAction::Proxy { route, decision } => {
                assert_eq!(route.prefix, "/api");
                assert_eq!(route.upstream, "http://127.0.0.1:9000");
                assert!(decision.allowed);
                assert_eq!(decision.limit, Some(2));
                assert_eq!(decision.remaining, Some(remaining));
            },
            _ => panic!("expected proxy"),
        }
    }
    match p.request_action(&request("GET", "/api", &[], Some(AUTH))) {
        RequestAction::TooManyRequests { headers, decision } => {
            assert!(!decision.allowed);
            assert_eq!(headers.get("x-ratelimit-limit").unwrap(), "2");
            assert_eq!(headers.get("x-ratelimit-remaining").unwrap(), "0");
            assert_eq!(headers.get("retry-after"), headers.get("x-ratelimit-reset"));
        },
        _ => panic!("expected 429"),
    }
}

#[test]
fn global_limit_applies_to_routes_without_one() {
    let mut p = Peregrine::new(config());
    assert!(matches!(p.request_action(&request("GET", "/doc", &[], None)), RequestAction::Proxy { .. }));
    assert!(matches!(p.request_action(&request("GET", "/doc/a", &[], None)), RequestAction::TooManyRequests { .. }));
}

#[test]
fn other_paths_go_to_static_files() {
    let mut p = Peregrine::new(config());
    match p.request_action(&request("GET", "/", &[], None)) {
        RequestAction::Static { file_path, content_type, .. } => {
            assert_eq!(file_path, "./dist/index.html");
            assert_eq!(content_type, "text/html; charset=utf-8");
        },
        _ => panic!("expected static"),
    }
    match p.request_action(&request("GET", "/docs/x.png", &[], None)) {
        RequestAction::Static { file_path, content_type, .. } => {
            assert_eq!(file_path, "./dist/docs/x.png");
            assert_eq!(content_type, "image/png");
        },
        _ => panic!("expected static"),
    }
    assert!(matches!(p.request_action(&request("GET", "/../secret", &[], None)), RequestAction::NotFound { .. }));
}

#[test]
fn forwarded_headers_append_to_existing() {
    let h = forwarded_headers(Some("1.1.1.1"), "2.2.2.2", Some("example.com"), Some("1.1 proxy"));
    assert_eq!(
        h,
        vec![
            ("x-forwarded-for".to_string(), "1.1.1.1, 2.2.2.2".to_string()),
            ("x-forwarded-proto".to_string(), "http".to_string()),
            ("x-forwarded-host".to_string(), "example.com".to_string()),
            ("via".to_string(), "1.1 proxy, peregrine".to_string()),
        ]
    );
    let h = forwarded_headers(None, "2.2.2.2", None, None);
    assert_eq!(
        h,
        vec![
            ("x-forwarded-for".to_string(), "2.2.2.2".to_string()),
            ("x-forwarded-proto".to_string(), "http".to_string()),
            ("via".to_string(), "peregrine".to_string()),
        ]
    );
}

fn allowed() -> RateLimitDecision {
    RateLimitDecision { allowed: true, limit: Some(5), remaining: Some(4), reset_after_secs: Some(60), retry_after_secs: None }
}

#[test]
fn upstream_response_headers_add_rate_limit_info() {
    let c = config();
    let h = response_filter_headers(&c, Some(&allowed()));
    let tail: Vec<(String, String)> = h[h.len() - 3..].to_vec();
    assert_eq!(h[0], ("x-powered-by".to_string(), "peregrine".to_string()));
    assert_eq!(
        tail,
        vec![
            ("x-ratelimit-limit".to_string(), "5".to_string()),
            ("x-ratelimit-remaining".to_string(), "4".to_string()),
            ("x-ratelimit-reset".to_string(), "60".to_string()),
        ]
    );
    let plain = response_filter_headers(&c, None);
    assert_eq!(plain.len(), 4);
    let mut denied = allowed();
    denied.allowed = false;
    assert_eq!(response_filter_headers(&c, Some(&denied)).len(), 4);
}

#[test]
fn too_many_requests_headers_carry_decision() {
    let mut base = IndexMap::new();
    base.insert("x-a".to_string(), "1".to_string());
    let d = RateLimitDecision { allowed: false, limit: Some(3), remaining: Some(0), reset_after_secs: Some(7), retry_after_secs: Some(7) };
    let h = too_many_requests_headers(&base, &d);
    let got: Vec<(String, String)> = h.into_iter().collect();
    assert_eq!(
        got,
        vec![
            ("x-a".to_string(), "1".to_string()),
            ("retry-after".to_string(), "7".to_string()),
            ("x-ratelimit-limit".to_string(), "3".to_string()),
            ("x-ratelimit-remaining".to_string(), "0".to_string()),
            ("x-ratelimit-reset".to_string(), "7".to_string()),
        ]
    );
}

#[test]
fn http_peer_from_upstream_url() {
    let t = build_http_peer("http://127.0.0.1:9000").ok().unwrap();
    assert_eq!(t.address, "127.0.0.1:9000");
    assert!(!t.use_tls);
    assert_eq!(t.sni, "");
    let t = build_http_peer("https://example.com/base").ok().unwrap();
    assert_eq!(t.address, "example.com:443");
    assert!(t.use_tls);
    assert_eq!(t.sni, "example.com");
    let t = build_http_peer("http://example.com").ok().unwrap();
    assert_eq!(t.address, "example.com:80");
    assert!(matches!(build_http_peer("unix:/run/foo.socket"), Err(UpstreamError::MissingHost)));
    assert!(matches!(build_http_peer("foo://example.com"), Err(UpstreamError::MissingPort)));
    assert!(matches!(build_http_peer("no url"), Err(UpstreamError::InvalidUrl { .. })));
}

#[test]
fn authority_drops_default_port() {
    assert_eq!(upstream_authority("http://127.0.0.1:9000").ok().unwrap(), "127.0.0.1:9000");
    assert_eq!(upstream_authority("http://example.com:80/x").ok().unwrap(), "example.com");
    assert_eq!(upstream_authority("https://example.com").ok().unwrap(), "example.com");
    assert!(matches!(upstream_authority("unix:/run/foo.socket"), Err(UpstreamError::MissingHost)));
}

#[test]
fn context_without_route_uses_placeholder_upstream() {
    let ctx = RequestContext::new();
    assert!(ctx.route.is_none());
    assert!(!ctx.rate_limited);
    assert!(ctx.rate_limit_decision.is_none());
    let t = upstream_target(&ctx).ok().unwrap();
    assert_eq!(t.address, "127.0.0.1:1");
    let mut ctx = RequestContext::new();
    ctx.route = Some(MatchedRoute {
        prefix: "/api".to_string(),
        upstream: "https://api.example.com:8443".to_string(),
        rate_limit: None,
        basic_auth: None,
    });
    let t = upstream_target(&ctx).ok().unwrap();
    assert_eq!(t.address, "api.example.com:8443");
    assert!(t.use_tls);
}

#[test]
fn unauthorized_requests_are_not_counted() {
    let mut p = Peregrine::new(config());
    for _ in 0..5 {
        assert!(matches!(p.request_action(&request("GET", "/api", &[], None)), RequestAction::Unauthorized { .. }));
    }
    match p.request_action(&request("GET", "/api", &[], Some(AUTH))) {
        RequestAction::Proxy { decision, .. } => assert_eq!(decision.remaining, Some(1)),
        _ => panic!("expected proxy"),
    }
}
