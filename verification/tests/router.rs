use peregrine::config::schema::{BasicAuthConfig, ProxyRoute, RateLimitConfig};
use peregrine::proxy::router::{match_proxy_route, path_matches_route, strip_route_prefix};
use peregrine::proxy::service::rewrite_path;

fn route(path: &str, upstream: &str) -> ProxyRoute {
    ProxyRoute { path: path.to_string(), upstream: upstream.to_string(), rate_limit: None, basic_auth: None }
}

#[test]
fn rewrite_path_strips_prefix_and_keeps_query() {
    let target = rewrite_path("/api/users", Some("page=1"), "/api");
    assert_eq!(target, "/users?page=1");
}

#[test]
fn rewrite_path_maps_exact_prefix_to_root() {
    let target = rewrite_path("/api", None, "/api");
    assert_eq!(target, "/");
}

#[test]
fn path_matches_prefix_and_subpaths_only() {
    assert!(path_matches_route("/api", "/api"));
    assert!(path_matches_route("/api/users", "/api"));
    assert!(!path_matches_route("/apix", "/api"));
    assert!(!path_matches_route("/ap", "/api"));
    assert!(path_matches_route("/", "/"));
    assert!(path_matches_route("//x", "/"));
}

#[test]
fn longest_prefix_wins() {
    let routes = vec![route("/api", "http://a:1"), route("/api/v2", "http://b:2"), route("/doc", "http://c:3")];
    let m = match_proxy_route(&routes, "/api/v2/users").unwrap();
    assert_eq!(m.prefix, "/api/v2");
    assert_eq!(m.upstream, "http://b:2");
    let m = match_proxy_route(&routes, "/api/v1").unwrap();
    assert_eq!(m.prefix, "/api");
    assert!(match_proxy_route(&routes, "/other").is_none());
    assert!(match_proxy_route(&routes, "/apiv2").is_none());
}

#[test]
fn equal_prefixes_pick_the_last_route() {
    let routes = vec![route("/api", "http://first:1"), route("/api", "http://second:2")];
    let m = match_proxy_route(&routes, "/api/x").unwrap();
    assert_eq!(m.upstream, "http://second:2");
}

#[test]
fn matched_route_carries_route_settings() {
    let mut r = route("/auth", "http://127.0.0.1:9999");
    r.rate_limit = Some(RateLimitConfig { requests: 10, window_seconds: 300 });
    r.basic_auth = Some(BasicAuthConfig { username: "admin".to_string(), password: "secret".to_string() });
    let m = match_proxy_route(&[r], "/auth").unwrap();
    assert_eq!(m.rate_limit.unwrap().requests, 10);
    assert_eq!(m.basic_auth.unwrap().password, "secret");
}

#[test]
fn strip_route_prefix_table() {
    assert_eq!(strip_route_prefix("/api", "/api"), "/");
    assert_eq!(strip_route_prefix("/api/users", "/api"), "/users");
    assert_eq!(strip_route_prefix("/apix", "/api"), "/apix");
    assert_eq!(strip_route_prefix("/other", "/api"), "/other");
    assert_eq!(strip_route_prefix("/api/", "/api"), "/");
}
