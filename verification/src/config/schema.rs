//! The gateway's configuration, as read from its YAML file.

use indexmap::IndexMap;
use vstd::prelude::*;

verus! {

/// The whole configuration.
pub struct AppConfig {
    /// Address the HTTP service listens on.
    pub listen: String,
    /// Path answered by the health check; must start with '/'.
    pub health_path: String,
    /// Directory that static files are served from.
    pub static_dir: String,
    /// Proxy routes, matched by path prefix.
    pub proxy: Vec<ProxyRoute>,
    /// Log format: "text" or "json".
    pub log_format: String,
    /// Headers added to every response, in order.
    pub headers: IndexMap<String, String>,
    /// Whether the default security headers are added.
    pub security_headers: bool,
    /// CORS settings, when enabled.
    pub cors: Option<CorsConfig>,
    /// The global rate limit, when enabled.
    pub rate_limit: Option<RateLimitConfig>,
}

/// A proxy route: requests under `path` go to `upstream`.
pub struct ProxyRoute {
    pub path: String,
    pub upstream: String,
    /// Route-level rate limit; the global one applies when absent.
    pub rate_limit: Option<RateLimitConfig>,
    /// Route-level basic auth.
    pub basic_auth: Option<BasicAuthConfig>,
}

/// CORS response-header settings.
pub struct CorsConfig {
    pub allow_origin: Option<String>,
    pub allow_methods: Option<String>,
    pub allow_headers: Option<String>,
}

/// At most `requests` requests per client within `window_seconds`.
#[derive(Clone, Copy)]
pub struct RateLimitConfig {
    pub requests: u64,
    pub window_seconds: u64,
}

/// Credentials that a route requires.
pub struct BasicAuthConfig {
    pub username: String,
    pub password: String,
}

impl Clone for BasicAuthConfig {
    fn clone(&self) -> (r: Self)
        ensures
            r == *self,
    {
        BasicAuthConfig { username: self.username.clone(), password: self.password.clone() }
    }
}

/// The default listen address, "0.0.0.0:8080".
pub fn default_listen() -> (s: String)
    ensures
        s@ == "0.0.0.0:8080"@,
{
    String::from_str("0.0.0.0:8080")
}

/// The default health-check path, "/__health__".
pub fn default_health_path() -> (s: String)
    ensures
        s@ == "/__health__"@,
{
    String::from_str("/__health__")
}

/// The default static directory, "./dist".
pub fn default_static_dir() -> (s: String)
    ensures
        s@ == "./dist"@,
{
    String::from_str("./dist")
}

/// The default log format, "text".
pub fn default_log_format() -> (s: String)
    ensures
        s@ == "text"@,
{
    String::from_str("text")
}

} // verus!
