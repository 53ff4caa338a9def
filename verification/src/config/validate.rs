//! Checking a configuration before the gateway starts.

use vstd::prelude::*;
use vstd::utf8::encode_utf8;

use crate::config::schema::{AppConfig, BasicAuthConfig, CorsConfig, ProxyRoute, RateLimitConfig};
use crate::header_map::{header_entries, header_map_get_index, header_map_len, Entries};
use crate::net::http_tokens::{
    header_name_is_valid, header_value_is_valid, is_header_name, is_header_value, is_method_token,
    method_is_valid,
};
use crate::net::url_parts::{parse_url, url_parse_error, url_scheme};
use crate::text::{
    all_white, ascii_lower, chars_of, eq_ascii_lowercase, first_some, has_prefix, is_blank,
    lemma_first_some_concat, lemma_first_some_none, lemma_first_some_skip, lemma_split_concat, lemma_split_no_comma,
    split_commas, starts_with, str_eq, trim_range, trimmed, is_white,
};

verus! {

/// Why a configuration is refused.
pub enum ConfigError {
    HealthPathNoSlash,
    LogFormat { format: String },
    HeaderName { name: String },
    ContentLengthHeader,
    HeaderValue { name: String },
    CorsOriginEmpty,
    CorsOriginInvalid,
    CorsOriginScheme { scheme: String },
    CorsMethodsEmpty,
    CorsMethodEmpty,
    CorsMethod { method: String },
    CorsHeadersEmpty,
    CorsHeaderEmpty,
    CorsHeader { header: String },
    RateLimitRequestsZero,
    RateLimitWindowZero,
    ProxyPrefix { prefix: String },
    UpstreamUrl { upstream: String, reason: String },
    UpstreamScheme { upstream: String, scheme: String },
    BasicAuthUsernameEmpty,
    BasicAuthPasswordEmpty,
    DuplicateProxyPath { path: String },
}

/// A refusal, with its texts as character sequences.
pub enum ConfigFault {
    HealthPathNoSlash,
    LogFormat { format: Seq<char> },
    HeaderName { name: Seq<char> },
    ContentLengthHeader,
    HeaderValue { name: Seq<char> },
    CorsOriginEmpty,
    CorsOriginInvalid,
    CorsOriginScheme { scheme: Seq<char> },
    CorsMethodsEmpty,
    CorsMethodEmpty,
    CorsMethod { method: Seq<char> },
    CorsHeadersEmpty,
    CorsHeaderEmpty,
    CorsHeader { header: Seq<char> },
    RateLimitRequestsZero,
    RateLimitWindowZero,
    ProxyPrefix { prefix: Seq<char> },
    UpstreamUrl { upstream: Seq<char>, reason: Seq<char> },
    UpstreamScheme { upstream: Seq<char>, scheme: Seq<char> },
    BasicAuthUsernameEmpty,
    BasicAuthPasswordEmpty,
    DuplicateProxyPath { path: Seq<char> },
}

impl View for ConfigError {
    type V = ConfigFault;

    open spec fn view(&self) -> ConfigFault {
        match self {
            ConfigError::HealthPathNoSlash => ConfigFault::HealthPathNoSlash,
            ConfigError::LogFormat { format } => ConfigFault::LogFormat { format: format@ },
            ConfigError::HeaderName { name } => ConfigFault::HeaderName { name: name@ },
            ConfigError::ContentLengthHeader => ConfigFault::ContentLengthHeader,
            ConfigError::HeaderValue { name } => ConfigFault::HeaderValue { name: name@ },
            ConfigError::CorsOriginEmpty => ConfigFault::CorsOriginEmpty,
            ConfigError::CorsOriginInvalid => ConfigFault::CorsOriginInvalid,
            ConfigError::CorsOriginScheme { scheme } => ConfigFault::CorsOriginScheme { scheme: scheme@ },
            ConfigError::CorsMethodsEmpty => ConfigFault::CorsMethodsEmpty,
            ConfigError::CorsMethodEmpty => ConfigFault::CorsMethodEmpty,
            ConfigError::CorsMethod { method } => ConfigFault::CorsMethod { method: method@ },
            ConfigError::CorsHeadersEmpty => ConfigFault::CorsHeadersEmpty,
            ConfigError::CorsHeaderEmpty => ConfigFault::CorsHeaderEmpty,
            ConfigError::CorsHeader { header } => ConfigFault::CorsHeader { header: header@ },
            ConfigError::RateLimitRequestsZero => ConfigFault::RateLimitRequestsZero,
            ConfigError::RateLimitWindowZero => ConfigFault::RateLimitWindowZero,
            ConfigError::ProxyPrefix { prefix } => ConfigFault::ProxyPrefix { prefix: prefix@ },
            ConfigError::UpstreamUrl { upstream, reason } => ConfigFault::UpstreamUrl { upstream: upstream@, reason: reason@ },
            ConfigError::UpstreamScheme { upstream, scheme } => ConfigFault::UpstreamScheme { upstream: upstream@, scheme: scheme@ },
            ConfigError::BasicAuthUsernameEmpty => ConfigFault::BasicAuthUsernameEmpty,
            ConfigError::BasicAuthPasswordEmpty => ConfigFault::BasicAuthPasswordEmpty,
            ConfigError::DuplicateProxyPath { path } => ConfigFault::DuplicateProxyPath { path: path@ },
        }
    }
}

/// The refusal that a check's result reports, `None` for success.
pub open spec fn outcome(r: Result<(), ConfigError>) -> Option<ConfigFault> {
    match r {
        Ok(_) => None,
        Err(e) => Some(e@),
    }
}

/// `a` if it is a refusal, else `b`.
pub open spec fn or_else(a: Option<ConfigFault>, b: Option<ConfigFault>) -> Option<ConfigFault> {
    if a is Some { a } else { b }
}

/// A rate limit needs a positive request count and window.
pub open spec fn rate_limit_fault(r: Option<RateLimitConfig>) -> Option<ConfigFault> {
    match r {
        None => None,
        Some(c) => if c.requests == 0 {
            Some(ConfigFault::RateLimitRequestsZero)
        } else if c.window_seconds == 0 {
            Some(ConfigFault::RateLimitWindowZero)
        } else {
            None
        },
    }
}

/// The health path must start with '/'.
pub open spec fn health_path_fault(p: Seq<char>) -> Option<ConfigFault> {
    if has_prefix(p, seq!['/']) { None } else { Some(ConfigFault::HealthPathNoSlash) }
}

/// The log format must be "text" or "json".
pub open spec fn log_format_fault(f: Seq<char>) -> Option<ConfigFault> {
    if f == "text"@ || f == "json"@ { None } else { Some(ConfigFault::LogFormat { format: f }) }
}

/// The scheme is "http" or "https".
pub open spec fn is_http_scheme(s: Seq<char>) -> bool {
    s == "http"@ || s == "https"@
}

/// A CORS origin must not be blank, and must be "*" or an http(s) URL.
pub open spec fn cors_origin_fault(o: Seq<char>) -> Option<ConfigFault> {
    if all_white(o) {
        Some(ConfigFault::CorsOriginEmpty)
    } else if o == "*"@ {
        None
    } else if url_parse_error(o) is Some {
        Some(ConfigFault::CorsOriginInvalid)
    } else if is_http_scheme(url_scheme(o)) {
        None
    } else {
        Some(ConfigFault::CorsOriginScheme { scheme: url_scheme(o) })
    }
}

/// A comma list item, trimmed, checked as a method (`methods`) or a header name.
pub open spec fn item_fault(p: Seq<char>, methods: bool) -> Option<ConfigFault> {
    let t = trimmed(p);
    if t.len() == 0 {
        if methods { Some(ConfigFault::CorsMethodEmpty) } else { Some(ConfigFault::CorsHeaderEmpty) }
    } else if methods {
        if is_method_token(encode_utf8(t)) { None } else { Some(ConfigFault::CorsMethod { method: t }) }
    } else {
        if is_header_name(encode_utf8(t)) { None } else { Some(ConfigFault::CorsHeader { header: t }) }
    }
}

/// The refusal of each item of a list.
pub open spec fn item_faults(ps: Seq<Seq<char>>, methods: bool) -> Seq<Option<ConfigFault>> {
    Seq::new(ps.len(), |k: int| item_fault(ps[k], methods))
}

/// A comma list of methods or header names: not blank, and every item valid.
pub open spec fn list_fault(s: Seq<char>, methods: bool) -> Option<ConfigFault> {
    if all_white(s) {
        if methods { Some(ConfigFault::CorsMethodsEmpty) } else { Some(ConfigFault::CorsHeadersEmpty) }
    } else {
        first_some(item_faults(split_commas(s), methods))
    }
}

/// The refusal of an optional setting, none when it is absent.
pub open spec fn opt_fault(o: Option<String>, f: spec_fn(Seq<char>) -> Option<ConfigFault>) -> Option<ConfigFault> {
    match o {
        Some(s) => f(s@),
        None => None,
    }
}

/// CORS settings: origin, then methods, then header names.
pub open spec fn cors_fault(c: Option<CorsConfig>) -> Option<ConfigFault> {
    match c {
        None => None,
        Some(c) => or_else(
            opt_fault(c.allow_origin, |o: Seq<char>| cors_origin_fault(o)),
            or_else(
                opt_fault(c.allow_methods, |m: Seq<char>| list_fault(m, true)),
                opt_fault(c.allow_headers, |h: Seq<char>| list_fault(h, false)),
            ),
        ),
    }
}

/// A configured response header: a valid name other than content-length,
/// and a valid value.
pub open spec fn header_fault(name: Seq<char>, value: Seq<char>) -> Option<ConfigFault> {
    if !is_header_name(encode_utf8(name)) {
        Some(ConfigFault::HeaderName { name })
    } else if ascii_lower(name) == "content-length"@ {
        Some(ConfigFault::ContentLengthHeader)
    } else if !is_header_value(encode_utf8(value)) {
        Some(ConfigFault::HeaderValue { name })
    } else {
        None
    }
}

/// The first refused configured response header, in order.
pub open spec fn headers_fault(e: Entries) -> Option<ConfigFault> {
    first_some(e.map_values(|x: (Seq<char>, Seq<char>)| header_fault(x.0, x.1)))
}

/// An upstream must parse as a URL with scheme http or https.
pub open spec fn upstream_fault(u: Seq<char>) -> Option<ConfigFault> {
    match url_parse_error(u) {
        Some(reason) => Some(ConfigFault::UpstreamUrl { upstream: u, reason }),
        None => if is_http_scheme(url_scheme(u)) {
            None
        } else {
            Some(ConfigFault::UpstreamScheme { upstream: u, scheme: url_scheme(u) })
        },
    }
}

/// Basic-auth credentials need a non-blank username and a non-empty password.
pub open spec fn basic_auth_fault(a: Option<BasicAuthConfig>) -> Option<ConfigFault> {
    match a {
        None => None,
        Some(a) => if all_white(a.username@) {
            Some(ConfigFault::BasicAuthUsernameEmpty)
        } else if a.password@.len() == 0 {
            Some(ConfigFault::BasicAuthPasswordEmpty)
        } else {
            None
        },
    }
}

/// Route `j`'s refusal, given that the routes before it passed.
pub open spec fn route_fault(routes: Seq<ProxyRoute>, j: int) -> Option<ConfigFault> {
    let r = routes[j];
    if !has_prefix(r.path@, seq!['/']) {
        Some(ConfigFault::ProxyPrefix { prefix: r.path@ })
    } else {
        or_else(
            upstream_fault(r.upstream@),
            or_else(
                rate_limit_fault(r.rate_limit),
                or_else(
                    basic_auth_fault(r.basic_auth),
                    if exists|k: int| 0 <= k < j && #[trigger] routes[k].path@ == r.path@ {
                        Some(ConfigFault::DuplicateProxyPath { path: r.path@ })
                    } else {
                        None
                    },
                ),
            ),
        )
    }
}

/// The first refused proxy route, in order.
pub open spec fn routes_fault(routes: Seq<ProxyRoute>) -> Option<ConfigFault> {
    first_some(Seq::new(routes.len(), |j: int| route_fault(routes, j)))
}

/// The first refusal of a configuration, in the order the checks run:
/// health path, log format, response headers, CORS, global rate limit, routes.
pub open spec fn config_fault(c: AppConfig) -> Option<ConfigFault> {
    or_else(
        health_path_fault(c.health_path@),
        or_else(
            log_format_fault(c.log_format@),
            or_else(
                headers_fault(header_entries(c.headers)),
                or_else(cors_fault(c.cors), or_else(rate_limit_fault(c.rate_limit), routes_fault(c.proxy@))),
            ),
        ),
    )
}

fn validate_rate_limit(rate_limit: Option<&RateLimitConfig>) -> (r: Result<(), ConfigError>)
    ensures
        outcome(r) == rate_limit_fault(match rate_limit { Some(c) => Some(*c), None => None }),
{
    let rate_limit = match rate_limit {
        None => return Ok(()),
        Some(c) => c,
    };
    if rate_limit.requests == 0 {
        return Err(ConfigError::RateLimitRequestsZero);
    }
    if rate_limit.window_seconds == 0 {
        return Err(ConfigError::RateLimitWindowZero);
    }
    Ok(())
}

fn validate_health_path(path: &str) -> (r: Result<(), ConfigError>)
    ensures
        outcome(r) == health_path_fault(path@),
{
    proof {
        reveal_strlit("/");
    }
    assert("/"@ =~= seq!['/']);
    if !starts_with(path, "/") {
        return Err(ConfigError::HealthPathNoSlash);
    }
    Ok(())
}

fn validate_log_format(format: &str) -> (r: Result<(), ConfigError>)
    ensures
        outcome(r) == log_format_fault(format@),
{
    if str_eq(format, "text") || str_eq(format, "json") {
        Ok(())
    } else {
        Err(ConfigError::LogFormat { format: String::from_str(format) })
    }
}

fn scheme_is_http(scheme: &str) -> (r: bool)
    ensures
        r == is_http_scheme(scheme@),
{
    str_eq(scheme, "http") || str_eq(scheme, "https")
}

fn validate_cors_origin(origin: &str) -> (r: Result<(), ConfigError>)
    ensures
        outcome(r) == cors_origin_fault(origin@),
{
    if is_blank(origin) {
        return Err(ConfigError::CorsOriginEmpty);
    }
    if str_eq(origin, "*") {
        return Ok(());
    }
    match parse_url(origin) {
        Err(_) => Err(ConfigError::CorsOriginInvalid),
        Ok(url) => if scheme_is_http(url.scheme.as_str()) {
            Ok(())
        } else {
            Err(ConfigError::CorsOriginScheme { scheme: url.scheme })
        },
    }
}

fn check_list_item(s: &str, cs: &Vec<char>, a: usize, b: usize, methods: bool) -> (r: Result<(), ConfigError>)
    requires
        cs@ == s@,
        a <= b <= cs@.len(),
    ensures
        outcome(r) == item_fault(cs@.subrange(a as int, b as int), methods),
{
    let (lo, hi) = trim_range(cs, a, b);
    if lo == hi {
        return if methods { Err(ConfigError::CorsMethodEmpty) } else { Err(ConfigError::CorsHeaderEmpty) };
    }
    let item = s.substring_char(lo, hi);
    let ok = if methods { method_is_valid(item.as_bytes()) } else { header_name_is_valid(item.as_bytes()) };
    if ok {
        Ok(())
    } else if methods {
        Err(ConfigError::CorsMethod { method: String::from_str(item) })
    } else {
        Err(ConfigError::CorsHeader { header: String::from_str(item) })
    }
}

fn validate_list(s: &str, methods: bool) -> (r: Result<(), ConfigError>)
    ensures
        outcome(r) == list_fault(s@, methods),
{
    if is_blank(s) {
        return if methods { Err(ConfigError::CorsMethodsEmpty) } else { Err(ConfigError::CorsHeadersEmpty) };
    }
    let cs = chars_of(s);
    let n = cs.len();
    let ghost target = first_some(item_faults(split_commas(s@), methods));
    let mut start: usize = 0;
    let mut i: usize = 0;
    assert(cs@.subrange(0, n as int) =~= cs@);
    while i < n
        invariant
            cs@ == s@,
            n == cs@.len(),
            start <= i <= n,
            forall|k: int| start <= k < i ==> cs@[k] != ',',
            target == first_some(item_faults(split_commas(cs@.subrange(start as int, n as int)), methods)),
            target == first_some(item_faults(split_commas(s@), methods)),
            !all_white(s@),
        decreases n - i,
    {
        if cs[i] == ',' {
            let ghost piece = cs@.subrange(start as int, i as int);
            let ghost rest = cs@.subrange(i + 1, n as int);
            let ghost ps = item_faults(split_commas(piece), methods);
            let ghost rs = item_faults(split_commas(rest), methods);
            proof {
                assert forall|k: int| 0 <= k < piece.len() implies piece[k] != ',' by {
                    assert(piece[k] == cs@[start + k]);
                }
                assert(cs@.subrange(start as int, n as int) =~= piece + seq![','] + rest);
                lemma_split_concat(piece, rest);
                lemma_split_no_comma(piece);
                assert(item_faults(split_commas(piece) + split_commas(rest), methods) =~= ps + rs);
                lemma_first_some_concat(ps, rs);
                assert(ps =~= seq![item_fault(piece, methods)]);
                assert(ps.drop_first() =~= Seq::<Option<ConfigFault>>::empty());
                assert(first_some(ps.drop_first()) is None);
                assert(target == first_some(ps + rs));
            }
            let checked = check_list_item(s, &cs, start, i, methods);
            if checked.is_err() {
                assert(target == item_fault(piece, methods));
                return checked;
            }
            assert(target == first_some(item_faults(split_commas(rest), methods)));
            start = i + 1;
        }
        i = i + 1;
    }
    let ghost piece = cs@.subrange(start as int, n as int);
    proof {
        assert forall|k: int| 0 <= k < piece.len() implies piece[k] != ',' by {
            assert(piece[k] == cs@[start + k]);
        }
        lemma_split_no_comma(piece);
        let ps = item_faults(split_commas(piece), methods);
        assert(ps =~= seq![item_fault(piece, methods)]);
        assert(ps.drop_first() =~= Seq::<Option<ConfigFault>>::empty());
        assert(first_some(ps.drop_first()) is None);
        assert(target == item_fault(piece, methods));
    }
    check_list_item(s, &cs, start, n, methods)
}

fn validate_cors_methods(methods: &str) -> (r: Result<(), ConfigError>)
    ensures
        outcome(r) == list_fault(methods@, true),
{
    validate_list(methods, true)
}

fn validate_cors_headers(headers: &str) -> (r: Result<(), ConfigError>)
    ensures
        outcome(r) == list_fault(headers@, false),
{
    validate_list(headers, false)
}

fn validate_cors(cors: Option<&CorsConfig>) -> (r: Result<(), ConfigError>)
    ensures
        outcome(r) == cors_fault(match cors { Some(c) => Some(*c), None => None }),
{
    let cors = match cors {
        None => return Ok(()),
        Some(c) => c,
    };
    if let Some(origin) = &cors.allow_origin {
        let r = validate_cors_origin(origin.as_str());
        if r.is_err() {
            return r;
        }
    }
    if let Some(methods) = &cors.allow_methods {
        let r = validate_cors_methods(methods.as_str());
        if r.is_err() {
            return r;
        }
    }
    if let Some(headers) = &cors.allow_headers {
        let r = validate_cors_headers(headers.as_str());
        if r.is_err() {
            return r;
        }
    }
    Ok(())
}

fn validate_header_name(name: &str) -> (r: Result<(), ConfigError>)
    ensures
        outcome(r) == (if !is_header_name(encode_utf8(name@)) {
            Some(ConfigFault::HeaderName { name: name@ })
        } else if ascii_lower(name@) == "content-length"@ {
            Some(ConfigFault::ContentLengthHeader)
        } else {
            None
        }),
{
    if !header_name_is_valid(name.as_bytes()) {
        return Err(ConfigError::HeaderName { name: String::from_str(name) });
    }
    if eq_ascii_lowercase(name, "content-length") {
        return Err(ConfigError::ContentLengthHeader);
    }
    Ok(())
}

fn validate_header_value(name: &str, value: &str) -> (r: Result<(), ConfigError>)
    ensures
        outcome(r) == (if is_header_value(encode_utf8(value@)) {
            None
        } else {
            Some(ConfigFault::HeaderValue { name: name@ })
        }),
{
    if !header_value_is_valid(value) {
        return Err(ConfigError::HeaderValue { name: String::from_str(name) });
    }
    Ok(())
}

fn validate_headers(config: &AppConfig) -> (r: Result<(), ConfigError>)
    ensures
        outcome(r) == headers_fault(header_entries(config.headers)),
{
    let ghost e = header_entries(config.headers);
    let ghost faults = e.map_values(|x: (Seq<char>, Seq<char>)| header_fault(x.0, x.1));
    let n = header_map_len(&config.headers);
    let mut i: usize = 0;
    while i < n
        invariant
            e == header_entries(config.headers),
            faults == e.map_values(|x: (Seq<char>, Seq<char>)| header_fault(x.0, x.1)),
            n == e.len(),
            i <= n,
            forall|k: int| 0 <= k < i ==> faults[k] is None,
        decreases n - i,
    {
        let (name, value) = match header_map_get_index(&config.headers, i) {
            Some(entry) => entry,
            None => {
                assert(false);
                return Ok(());
            },
        };
        let checked = validate_header_name(name.as_str());
        if checked.is_err() {
            proof {
                lemma_first_some_skip(faults, i as int);
                assert(faults.subrange(i as int, n as int)[0] == faults[i as int]);
            }
            return checked;
        }
        let checked = validate_header_value(name.as_str(), value.as_str());
        if checked.is_err() {
            proof {
                lemma_first_some_skip(faults, i as int);
                assert(faults.subrange(i as int, n as int)[0] == faults[i as int]);
            }
            return checked;
        }
        assert(faults[i as int] is None);
        i = i + 1;
    }
    proof {
        lemma_first_some_skip(faults, n as int);
    }
    Ok(())
}

fn validate_proxy_prefix(prefix: &str) -> (r: Result<(), ConfigError>)
    ensures
        outcome(r) == (if has_prefix(prefix@, seq!['/']) {
            None
        } else {
            Some(ConfigFault::ProxyPrefix { prefix: prefix@ })
        }),
{
    proof {
        reveal_strlit("/");
    }
    assert("/"@ =~= seq!['/']);
    if !starts_with(prefix, "/") {
        return Err(ConfigError::ProxyPrefix { prefix: String::from_str(prefix) });
    }
    Ok(())
}

fn validate_upstream_url(upstream: &str) -> (r: Result<(), ConfigError>)
    ensures
        outcome(r) == upstream_fault(upstream@),
{
    match parse_url(upstream) {
        Err(reason) => Err(ConfigError::UpstreamUrl { upstream: String::from_str(upstream), reason }),
        Ok(url) => if scheme_is_http(url.scheme.as_str()) {
            Ok(())
        } else {
            Err(ConfigError::UpstreamScheme { upstream: String::from_str(upstream), scheme: url.scheme })
        },
    }
}

fn validate_basic_auth(auth: Option<&BasicAuthConfig>) -> (r: Result<(), ConfigError>)
    ensures
        outcome(r) == basic_auth_fault(match auth { Some(a) => Some(*a), None => None }),
{
    let auth = match auth {
        None => return Ok(()),
        Some(a) => a,
    };
    if is_blank(auth.username.as_str()) {
        return Err(ConfigError::BasicAuthUsernameEmpty);
    }
    if auth.password.as_str().is_empty() {
        return Err(ConfigError::BasicAuthPasswordEmpty);
    }
    Ok(())
}

fn path_seen_before(routes: &Vec<ProxyRoute>, j: usize) -> (r: bool)
    requires
        j < routes@.len(),
    ensures
        r == exists|k: int| 0 <= k < j && #[trigger] routes@[k].path@ == routes@[j as int].path@,
{
    let mut k: usize = 0;
    while k < j
        invariant
            j < routes@.len(),
            k <= j,
            forall|m: int| 0 <= m < k ==> #[trigger] routes@[m].path@ != routes@[j as int].path@,
        decreases j - k,
    {
        if str_eq(routes[k].path.as_str(), routes[j].path.as_str()) {
            return true;
        }
        k = k + 1;
    }
    false
}

fn check_route(routes: &Vec<ProxyRoute>, j: usize) -> (r: Result<(), ConfigError>)
    requires
        j < routes@.len(),
    ensures
        outcome(r) == route_fault(routes@, j as int),
{
    let route = &routes[j];
    let checked = validate_proxy_prefix(route.path.as_str());
    if checked.is_err() {
        return checked;
    }
    let checked = validate_upstream_url(route.upstream.as_str());
    if checked.is_err() {
        return checked;
    }
    let checked = validate_rate_limit(route.rate_limit.as_ref());
    if checked.is_err() {
        return checked;
    }
    let checked = validate_basic_auth(route.basic_auth.as_ref());
    if checked.is_err() {
        return checked;
    }
    if path_seen_before(routes, j) {
        return Err(ConfigError::DuplicateProxyPath { path: route.path.clone() });
    }
    Ok(())
}

fn validate_proxy_routes(config: &AppConfig) -> (r: Result<(), ConfigError>)
    ensures
        outcome(r) == routes_fault(config.proxy@),
{
    let ghost routes = config.proxy@;
    let ghost faults = Seq::new(routes.len(), |j: int| route_fault(routes, j));
    let mut j: usize = 0;
    while j < config.proxy.len()
        invariant
            routes == config.proxy@,
            faults == Seq::new(routes.len(), |j: int| route_fault(routes, j)),
            j <= routes.len(),
            forall|k: int| 0 <= k < j ==> faults[k] is None,
        decreases routes.len() - j,
    {
        let checked = check_route(&config.proxy, j);
        if checked.is_err() {
            proof {
                lemma_first_some_skip(faults, j as int);
                assert(faults.subrange(j as int, routes.len() as int)[0] == faults[j as int]);
            }
            return checked;
        }
        j = j + 1;
    }
    proof {
        lemma_first_some_skip(faults, routes.len() as int);
    }
    Ok(())
}

/// Checks a configuration: the health path and every route prefix start
/// with '/'; the log format is "text" or "json"; every configured response
/// header has a valid name other than content-length and a valid value; the
/// CORS origin is "*" or an http(s) URL, the CORS methods and header names are
/// non-empty comma lists of valid items; rate limits are positive; upstreams
/// are http(s) URLs; basic-auth credentials are not empty; no route path
/// occurs twice. The first failing check, in that order, is reported.
pub fn validate_config(config: &AppConfig) -> (r: Result<(), ConfigError>)
    ensures
        outcome(r) == config_fault(*config),
{
    let checked = validate_health_path(config.health_path.as_str());
    if checked.is_err() {
        return checked;
    }
    let checked = validate_log_format(config.log_format.as_str());
    if checked.is_err() {
        return checked;
    }
    let checked = validate_headers(config);
    if checked.is_err() {
        return checked;
    }
    let checked = validate_cors(config.cors.as_ref());
    if checked.is_err() {
        return checked;
    }
    let checked = validate_rate_limit(config.rate_limit.as_ref());
    if checked.is_err() {
        return checked;
    }
    validate_proxy_routes(config)
}

} // verus!

verus! {

/// What a configuration that passes validation guarantees: the health path
/// and every route path start with '/'; the log format is "text" or "json";
/// every configured header has a valid name other than content-length and a
/// valid value; every rate limit is positive; every upstream is an http or
/// https URL; basic-auth credentials are not empty; and no two routes share a
/// path.
pub proof fn law_valid_config(c: AppConfig)
    requires
        config_fault(c) is None,
    ensures
        has_prefix(c.health_path@, seq!['/']),
        c.log_format@ == "text"@ || c.log_format@ == "json"@,
        forall|i: int| 0 <= i < header_entries(c.headers).len() ==> {
            let (n, v) = #[trigger] header_entries(c.headers)[i];
            is_header_name(encode_utf8(n)) && ascii_lower(n) != "content-length"@ && is_header_value(encode_utf8(v))
        },
        c.rate_limit matches Some(l) ==> l.requests > 0 && l.window_seconds > 0,
        forall|j: int| 0 <= j < c.proxy@.len() ==> {
            let r = #[trigger] c.proxy@[j];
            &&& has_prefix(r.path@, seq!['/'])
            &&& url_parse_error(r.upstream@) is None && is_http_scheme(url_scheme(r.upstream@))
            &&& r.rate_limit matches Some(l) ==> l.requests > 0 && l.window_seconds > 0
            &&& r.basic_auth matches Some(a) ==> !all_white(a.username@) && a.password@.len() > 0
        },
        forall|j: int, k: int| 0 <= j < k < c.proxy@.len() ==> c.proxy@[j].path@ != c.proxy@[k].path@,
{
    let e = header_entries(c.headers);
    let hf = e.map_values(|x: (Seq<char>, Seq<char>)| header_fault(x.0, x.1));
    lemma_first_some_none(hf);
    assert forall|i: int| 0 <= i < e.len() implies {
        let (n, v) = #[trigger] e[i];
        is_header_name(encode_utf8(n)) && ascii_lower(n) != "content-length"@ && is_header_value(encode_utf8(v))
    } by {
        assert(hf[i] is None);
    }
    let routes = c.proxy@;
    let rf = Seq::new(routes.len(), |j: int| route_fault(routes, j));
    lemma_first_some_none(rf);
    assert forall|j: int| 0 <= j < routes.len() implies {
        let r = #[trigger] routes[j];
        &&& has_prefix(r.path@, seq!['/'])
        &&& url_parse_error(r.upstream@) is None && is_http_scheme(url_scheme(r.upstream@))
        &&& r.rate_limit matches Some(l) ==> l.requests > 0 && l.window_seconds > 0
        &&& r.basic_auth matches Some(a) ==> !all_white(a.username@) && a.password@.len() > 0
    } by {
        assert(rf[j] is None);
    }
    assert forall|j: int, k: int| 0 <= j < k < routes.len() implies routes[j].path@ != routes[k].path@ by {
        assert(rf[k] is None);
        if routes[j].path@ == routes[k].path@ {
            assert(exists|m: int| 0 <= m < k && #[trigger] routes[m].path@ == routes[k].path@);
        }
    }
}

} // verus!

verus! {

/// A CORS origin is accepted when it is "*", or when it is not blank and
/// parses as a URL whose scheme is http or https (with or without a port,
/// path or anything else the URL carries).
pub proof fn law_cors_origin_accepted(o: Seq<char>)
    requires
        o == "*"@ || (!all_white(o) && url_parse_error(o) is None
            && (url_scheme(o) == "http"@ || url_scheme(o) == "https"@)),
    ensures
        cors_origin_fault(o) is None,
{
    reveal_strlit("*");
    if o == "*"@ {
        assert(!is_white(o[0]));
    }
}

/// A comma list is accepted when it is not blank and every item, trimmed, is
/// a non-empty valid method (`methods`) or header name.
pub open spec fn list_meets_rules(s: Seq<char>, methods: bool) -> bool {
    &&& !all_white(s)
    &&& forall|k: int| 0 <= k < split_commas(s).len() ==> {
        let t = #[trigger] trimmed(split_commas(s)[k]);
        &&& t.len() > 0
        &&& if methods { is_method_token(encode_utf8(t)) } else { is_header_name(encode_utf8(t)) }
    }
}

proof fn lemma_list_accepted(s: Seq<char>, methods: bool)
    requires
        list_meets_rules(s, methods),
    ensures
        list_fault(s, methods) is None,
{
    let f = item_faults(split_commas(s), methods);
    assert forall|k: int| 0 <= k < f.len() implies #[trigger] f[k] is None by {
        assert(f[k] == item_fault(split_commas(s)[k], methods));
        let t = trimmed(split_commas(s)[k]);
        assert(t.len() > 0);
    }
    lemma_first_some_none(f);
}

/// Validation refuses nothing that meets the documented rules: a health path
/// starting with '/'; log format "text" or "json"; configured headers with
/// valid names other than content-length and valid values; a CORS origin
/// that is "*" or a non-blank http(s) URL; CORS methods and header names that
/// are non-blank comma lists of valid items; positive rate limits; route
/// paths starting with '/' and all distinct; http(s) upstreams; non-blank
/// basic-auth usernames and non-empty passwords.
pub proof fn law_config_meeting_rules_is_accepted(c: AppConfig)
    requires
        has_prefix(c.health_path@, seq!['/']),
        c.log_format@ == "text"@ || c.log_format@ == "json"@,
        forall|i: int| 0 <= i < header_entries(c.headers).len() ==> {
            let (n, v) = #[trigger] header_entries(c.headers)[i];
            is_header_name(encode_utf8(n)) && ascii_lower(n) != "content-length"@ && is_header_value(encode_utf8(v))
        },
        c.cors matches Some(cors) ==> {
            &&& cors.allow_origin matches Some(o) ==> (o@ == "*"@ || (!all_white(o@) && url_parse_error(o@) is None
                && (url_scheme(o@) == "http"@ || url_scheme(o@) == "https"@)))
            &&& cors.allow_methods matches Some(m) ==> list_meets_rules(m@, true)
            &&& cors.allow_headers matches Some(h) ==> list_meets_rules(h@, false)
        },
        c.rate_limit matches Some(l) ==> l.requests > 0 && l.window_seconds > 0,
        forall|j: int| 0 <= j < c.proxy@.len() ==> {
            let r = #[trigger] c.proxy@[j];
            &&& has_prefix(r.path@, seq!['/'])
            &&& url_parse_error(r.upstream@) is None && (url_scheme(r.upstream@) == "http"@ || url_scheme(r.upstream@) == "https"@)
            &&& r.rate_limit matches Some(l) ==> l.requests > 0 && l.window_seconds > 0
            &&& r.basic_auth matches Some(a) ==> !all_white(a.username@) && a.password@.len() > 0
        },
        forall|j: int, k: int| 0 <= j < k < c.proxy@.len() ==> c.proxy@[j].path@ != c.proxy@[k].path@,
    ensures
        config_fault(c) is None,
{
    let e = header_entries(c.headers);
    let hf = e.map_values(|x: (Seq<char>, Seq<char>)| header_fault(x.0, x.1));
    assert forall|i: int| 0 <= i < hf.len() implies #[trigger] hf[i] is None by {
        let (n, v) = e[i];
        assert(hf[i] == header_fault(e[i].0, e[i].1));
    }
    lemma_first_some_none(hf);
    if let Some(cors) = c.cors {
        if let Some(o) = cors.allow_origin {
            law_cors_origin_accepted(o@);
        }
        if let Some(m) = cors.allow_methods {
            lemma_list_accepted(m@, true);
        }
        if let Some(h) = cors.allow_headers {
            lemma_list_accepted(h@, false);
        }
    }
    let routes = c.proxy@;
    let rf = Seq::new(routes.len(), |j: int| route_fault(routes, j));
    assert forall|j: int| 0 <= j < rf.len() implies #[trigger] rf[j] is None by {
        let r = routes[j];
        assert(r == c.proxy@[j]);
        if exists|k: int| 0 <= k < j && #[trigger] routes[k].path@ == r.path@ {
            let k = choose|k: int| 0 <= k < j && #[trigger] routes[k].path@ == r.path@;
            assert(routes[k].path@ != routes[j].path@);
        }
    }
    lemma_first_some_none(rf);
}

} // verus!
