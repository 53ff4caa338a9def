pub mod auth;
pub mod cors;
pub mod rate_limit;
pub mod response_headers;
pub mod security_headers;
