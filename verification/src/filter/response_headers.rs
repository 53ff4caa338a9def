//! The headers that every response of the gateway carries.

use indexmap::IndexMap;
use vstd::prelude::*;

use crate::config::schema::AppConfig;
use crate::filter::cors::{apply_cors_headers, law_cors_headers, with_cors_headers};
use crate::filter::security_headers::{apply_security_headers, law_security_headers, with_security_headers};
use crate::header_map::{has_name, header_entries, header_map_clone, names_unique, value_of, Entries};

verus! {

/// The configured headers, then the security headers where missing (when
/// enabled), then the CORS headers (when configured).
pub open spec fn configured_response_entries(config: AppConfig) -> Entries {
    let base = header_entries(config.headers);
    let secured = if config.security_headers { with_security_headers(base) } else { base };
    with_cors_headers(secured, config.cors)
}

/// The headers added to every response under `config`.
pub fn response_headers(config: &AppConfig) -> (headers: IndexMap<String, String>)
    ensures
        header_entries(headers) == configured_response_entries(*config),
{
    let mut headers = header_map_clone(&config.headers);
    apply_security_headers(&mut headers, config.security_headers);
    let cors = match &config.cors {
        Some(c) => Some(c),
        None => None,
    };
    apply_cors_headers(&mut headers, cors);
    headers
}

} // verus!

verus! {

/// Every response carries the configured headers with their configured
/// values, except where CORS (when configured) sets one of its own three
/// headers; the security headers never override a configured value.
pub proof fn law_configured_headers_kept(config: AppConfig, name: Seq<char>)
    requires
        names_unique(header_entries(config.headers)),
        has_name(header_entries(config.headers), name),
        config.cors is Some ==> name != "access-control-allow-origin"@ && name != "access-control-allow-methods"@
            && name != "access-control-allow-headers"@,
    ensures
        value_of(configured_response_entries(config), name) == value_of(header_entries(config.headers), name),
{
    let base = header_entries(config.headers);
    law_security_headers(base, name);
    let secured = if config.security_headers { with_security_headers(base) } else { base };
    law_cors_headers(secured, config.cors, name);
}

} // verus!
