//! The gateway's decisions for each request and for the messages it forwards.

use indexmap::IndexMap;
use vstd::prelude::*;

use crate::config::schema::AppConfig;
use crate::filter::auth::{basic_auth_passes, check_basic_auth};
use crate::filter::cors::{is_preflight, names_contain};
use crate::filter::rate_limit::{
    current_counter, limiter_key, limiter_step, unlimited_decision, Counters, RateLimitDecision, RateLimiter,
};
use crate::filter::response_headers::{configured_response_entries, response_headers};
use crate::handler::static_files::{join_path, joined_path, normalize_path, relative_file};
use crate::header_map::{
    entries_insert, header_entries, header_map_clone, header_map_get_index, header_map_insert, header_map_len,
    Entries,
};
use crate::proxy::ctx::RequestContext;
use crate::proxy::router::{
    is_chosen_route, lemma_chosen_route_unique, match_proxy_route, matched_from, strip_route_prefix, stripped_path,
    MatchedRoute,
};
use crate::proxy::upstream::{build_http_peer, peer_for, upstream_error_view, PeerFault, PeerTarget, UpstreamError};
use crate::text::{decimal, decimal_string, str_eq};
use crate::util::mime::{content_type, content_type_of, path_extension};

verus! {

/// What the gateway reads of an incoming request.
pub struct IncomingRequest {
    pub method: String,
    /// The URI path, without the query.
    pub path: String,
    /// The request's header names, lower-case.
    pub header_names: Vec<String>,
    /// The raw value of the `authorization` header, if present.
    pub authorization: Option<Vec<u8>>,
    /// The client's IP address, or "unknown".
    pub client_ip: String,
}

/// How the gateway answers a request.
pub enum RequestAction {
    /// A CORS preflight: 204 with no body.
    Preflight { headers: IndexMap<String, String> },
    /// The health check: 200 with `{"status":"ok"}`.
    Health { headers: IndexMap<String, String> },
    /// A proxy route whose basic auth failed: 401.
    Unauthorized { headers: IndexMap<String, String> },
    /// A proxy route whose rate limit is exhausted: 429.
    TooManyRequests { headers: IndexMap<String, String>, decision: RateLimitDecision },
    /// Forward to the route's upstream.
    Proxy { route: MatchedRoute, decision: RateLimitDecision },
    /// Serve this file with this content type (404 if it cannot be read).
    Static { file_path: String, content_type: &'static str, headers: IndexMap<String, String> },
    /// 404.
    NotFound { headers: IndexMap<String, String> },
}

/// An answer, with header maps seen as their entries.
pub enum ActionView {
    Preflight { headers: Entries },
    Health { headers: Entries },
    Unauthorized { headers: Entries },
    TooManyRequests { headers: Entries, decision: RateLimitDecision },
    Proxy { route: MatchedRoute, decision: RateLimitDecision },
    Static { file_path: Seq<char>, content_type: Seq<char>, headers: Entries },
    NotFound { headers: Entries },
}

impl View for RequestAction {
    type V = ActionView;

    open spec fn view(&self) -> ActionView {
        match self {
            RequestAction::Preflight { headers } => ActionView::Preflight { headers: header_entries(*headers) },
            RequestAction::Health { headers } => ActionView::Health { headers: header_entries(*headers) },
            RequestAction::Unauthorized { headers } => ActionView::Unauthorized { headers: header_entries(*headers) },
            RequestAction::TooManyRequests { headers, decision } => ActionView::TooManyRequests {
                headers: header_entries(*headers),
                decision: *decision,
            },
            RequestAction::Proxy { route, decision } => ActionView::Proxy { route: *route, decision: *decision },
            RequestAction::Static { file_path, content_type, headers } => ActionView::Static {
                file_path: file_path@,
                content_type: content_type@,
                headers: header_entries(*headers),
            },
            RequestAction::NotFound { headers } => ActionView::NotFound { headers: header_entries(*headers) },
        }
    }
}

/// The request is a CORS preflight.
pub open spec fn is_preflight_request(req: IncomingRequest) -> bool {
    req.method@ == "OPTIONS"@ && names_contain(req.header_names@, "origin"@)
        && names_contain(req.header_names@, "access-control-request-method"@)
}

/// The rate-limit bucket of a route.
pub open spec fn route_bucket(prefix: Seq<char>) -> Seq<char> {
    "route:"@ + prefix
}

/// The raw authorization value as bytes.
pub open spec fn authorization_bytes(a: Option<Vec<u8>>) -> Option<Seq<u8>> {
    match a {
        Some(v) => Some(v@),
        None => None,
    }
}

/// `h` with `k` set to the decimal value of `v`, when `v` is present.
pub open spec fn with_number(h: Entries, k: Seq<char>, v: Option<u64>) -> Entries {
    match v {
        Some(n) => entries_insert(h, k, decimal(n as nat)),
        None => h,
    }
}

/// The headers of a 429 answer: `retry-after`, `x-ratelimit-limit`,
/// `x-ratelimit-remaining` and `x-ratelimit-reset` added for the values the
/// decision has.
pub open spec fn too_many_entries(h: Entries, d: RateLimitDecision) -> Entries {
    with_number(
        with_number(
            with_number(with_number(h, "retry-after"@, d.retry_after_secs), "x-ratelimit-limit"@, d.limit),
            "x-ratelimit-remaining"@,
            d.remaining,
        ),
        "x-ratelimit-reset"@,
        d.reset_after_secs,
    )
}

/// The route's own limit, or else the global one.
pub open spec fn route_limit(c: AppConfig, route: MatchedRoute) -> Option<crate::config::schema::RateLimitConfig> {
    match route.rate_limit {
        Some(l) => Some(l),
        None => c.rate_limit,
    }
}

/// How the gateway answers `req` under configuration `c` and rate-limit
/// counters `m`, at time `now` of the limiter's clock, and the counters after.
/// In order: a CORS preflight gets 204; the health path gets the health
/// answer; a path under a proxy route is checked for basic auth (401), then
/// against the route's (or else the global) rate limit (429), then forwarded;
/// any other path is served from the static directory.
pub open spec fn planned_action(c: AppConfig, m: Counters, req: IncomingRequest, now: u128) -> (Counters, ActionView) {
    let h = configured_response_entries(c);
    if is_preflight_request(req) {
        (m, ActionView::Preflight { headers: h })
    } else if req.path@ == c.health_path@ {
        (m, ActionView::Health { headers: h })
    } else if exists|i: int| is_chosen_route(c.proxy@, req.path@, i) {
        let i = choose|i: int| is_chosen_route(c.proxy@, req.path@, i);
        let route = matched_from(c.proxy@[i]);
        if !basic_auth_passes(authorization_bytes(req.authorization), route.basic_auth) {
            (m, ActionView::Unauthorized { headers: entries_insert(h, "www-authenticate"@, "Basic Required"@) })
        } else {
            match route_limit(c, route) {
                None => (m, ActionView::Proxy { route, decision: unlimited_decision() }),
                Some(l) => {
                    let (m2, d) = limiter_step(m, limiter_key(route_bucket(route.prefix@), req.client_ip@), l, now);
                    if d.allowed {
                        (m2, ActionView::Proxy { route, decision: d })
                    } else {
                        (m2, ActionView::TooManyRequests { headers: too_many_entries(h, d), decision: d })
                    }
                },
            }
        }
    } else {
        match relative_file(req.path@) {
            None => (m, ActionView::NotFound { headers: h }),
            Some(rel) => {
                let file = joined_path(c.static_dir@, rel);
                (m, ActionView::Static { file_path: file, content_type: content_type_of(path_extension(file)), headers: h })
            },
        }
    }
}

fn set_number(headers: &mut IndexMap<String, String>, name: &str, value: Option<u64>)
    ensures
        header_entries(*final(headers)) == with_number(header_entries(*old(headers)), name@, value),
{
    if let Some(v) = value {
        header_map_insert(headers, String::from_str(name), decimal_string(v));
    }
}

/// The headers of a 429 answer, from the common response headers.
pub fn too_many_requests_headers(headers: &IndexMap<String, String>, decision: &RateLimitDecision) -> (r: IndexMap<String, String>)
    ensures
        header_entries(r) == too_many_entries(header_entries(*headers), *decision),
{
    let mut h = header_map_clone(headers);
    set_number(&mut h, "retry-after", decision.retry_after_secs);
    set_number(&mut h, "x-ratelimit-limit", decision.limit);
    set_number(&mut h, "x-ratelimit-remaining", decision.remaining);
    set_number(&mut h, "x-ratelimit-reset", decision.reset_after_secs);
    h
}

/// The gateway: its configuration and its rate limiter.
pub struct Peregrine {
    config: AppConfig,
    rate_limiter: RateLimiter,
}

impl Peregrine {
    /// The configuration in force.
    pub closed spec fn app_config(&self) -> AppConfig {
        self.config
    }

    /// The rate-limit counters.
    pub closed spec fn counters(&self) -> Counters {
        self.rate_limiter.counters()
    }

    /// A gateway for `config` that has counted no request.
    pub fn new(config: AppConfig) -> (r: Self)
        ensures
            r.app_config() == config,
            r.counters() == Map::<Seq<char>, crate::filter::rate_limit::ClientCounter>::empty(),
    {
        Peregrine { config, rate_limiter: RateLimiter::new() }
    }

    /// The configuration in force.
    pub fn config(&self) -> (c: &AppConfig)
        ensures
            *c == self.app_config(),
    {
        &self.config
    }

    /// Decides how to answer `req`, counting it against its rate limit when
    /// it goes to a limited route. The outcome is that of
    /// [`planned_action`] at the time the limiter's clock reads.
    pub fn request_action(&mut self, req: &IncomingRequest) -> (a: RequestAction)
        ensures
            final(self).app_config() == old(self).app_config(),
            exists|now: u128| (final(self).counters(), a@) == #[trigger] planned_action(old(self).app_config(), old(self).counters(), *req, now),
    {
        let ghost c = old(self).app_config();
        let ghost m = old(self).counters();
        let headers = response_headers(&self.config);
        if is_preflight(req.method.as_str(), &req.header_names) {
            let a = RequestAction::Preflight { headers };
            assert((self.counters(), a@) == planned_action(c, m, *req, 0));
            return a;
        }
        if str_eq(req.path.as_str(), self.config.health_path.as_str()) {
            let a = RequestAction::Health { headers };
            assert((self.counters(), a@) == planned_action(c, m, *req, 0));
            return a;
        }
        match match_proxy_route(self.config.proxy.as_slice(), req.path.as_str()) {
            Some(route) => {
                proof {
                    let i = choose|i: int| is_chosen_route(c.proxy@, req.path@, i) && route == matched_from(#[trigger] c.proxy@[i]);
                    let k = choose|k: int| is_chosen_route(c.proxy@, req.path@, k);
                    lemma_chosen_route_unique(c.proxy@, req.path@, i, k);
                }
                let auth = match &req.authorization {
                    Some(v) => Some(v.as_slice()),
                    None => None,
                };
                if !check_basic_auth(auth, route.basic_auth.as_ref()) {
                    let mut headers = headers;
                    header_map_insert(&mut headers, String::from_str("www-authenticate"), String::from_str("Basic Required"));
                    let a = RequestAction::Unauthorized { headers };
                    assert((self.counters(), a@) == planned_action(c, m, *req, 0));
                    return a;
                }
                let mut bucket = String::from_str("route:");
                bucket.append(route.prefix.as_str());
                let limit = match &route.rate_limit {
                    Some(l) => Some(l),
                    None => self.config.rate_limit.as_ref(),
                };
                let decision = self.rate_limiter.check(req.client_ip.as_str(), bucket.as_str(), limit);
                assert(bucket@ == route_bucket(route.prefix@));
                let ghost key = limiter_key(bucket@, req.client_ip@);
                let ghost now: u128 = match limit {
                    Some(l) => choose|t: u128| (self.rate_limiter.counters(), decision) == #[trigger] limiter_step(m, key, *l, t),
                    None => 0,
                };
                if !decision.allowed {
                    let a = RequestAction::TooManyRequests { headers: too_many_requests_headers(&headers, &decision), decision };
                    assert((self.counters(), a@) == planned_action(c, m, *req, now));
                    return a;
                }
                let a = RequestAction::Proxy { route, decision };
                assert((self.counters(), a@) == planned_action(c, m, *req, now));
                a
            },
            None => {
                match normalize_path(req.path.as_str()) {
                    None => {
                        let a = RequestAction::NotFound { headers };
                        assert((self.counters(), a@) == planned_action(c, m, *req, 0));
                        a
                    },
                    Some(rel) => {
                        let file_path = join_path(self.config.static_dir.as_str(), rel.as_str());
                        let content_type = content_type(file_path.as_str());
                        let a = RequestAction::Static { file_path, content_type, headers };
                        assert((self.counters(), a@) == planned_action(c, m, *req, 0));
                        a
                    },
                }
            },
        }
    }
}

/// A list of header pairs as entries.
pub open spec fn pairs_view(v: Seq<(String, String)>) -> Entries {
    v.map_values(|p: (String, String)| (p.0@, p.1@))
}

/// The view of an optional string slice.
pub open spec fn opt_str(o: Option<&str>) -> Option<Seq<char>> {
    match o {
        Some(s) => Some(s@),
        None => None,
    }
}

/// `existing` followed by ", " and `item`, or `item` alone.
pub open spec fn appended(existing: Option<Seq<char>>, item: Seq<char>) -> Seq<char> {
    match existing {
        Some(e) => e + ", "@ + item,
        None => item,
    }
}

/// The forwarding headers set on a proxied request, in order:
/// `x-forwarded-for` (the client appended to any earlier value),
/// `x-forwarded-proto: http`, `x-forwarded-host` (the request's host, when it
/// has one) and `via` ("peregrine" appended to any earlier value).
pub open spec fn forwarded_entries(
    forwarded_for: Option<Seq<char>>,
    client_ip: Seq<char>,
    host: Option<Seq<char>>,
    via: Option<Seq<char>>,
) -> Entries {
    seq![("x-forwarded-for"@, appended(forwarded_for, client_ip)), ("x-forwarded-proto"@, "http"@)]
        + match host {
        Some(h) => seq![("x-forwarded-host"@, h)],
        None => Seq::empty(),
    } + seq![("via"@, appended(via, "peregrine"@))]
}

fn append_item(existing: Option<&str>, item: &str) -> (r: String)
    ensures
        r@ == appended(opt_str(existing), item@),
{
    match existing {
        Some(e) => {
            let mut s = String::from_str(e);
            s.append(", ");
            s.append(item);
            s
        },
        None => String::from_str(item),
    }
}

fn pair(name: &str, value: String) -> (r: (String, String))
    ensures
        r.0@ == name@,
        r.1@ == value@,
{
    (String::from_str(name), value)
}

/// The forwarding headers for an upstream request, from the values of its
/// `x-forwarded-for` and `via` headers, the client's address and the
/// incoming request's `host` header.
pub fn forwarded_headers(forwarded_for: Option<&str>, client_ip: &str, host: Option<&str>, via: Option<&str>) -> (r: Vec<(String, String)>)
    ensures
        pairs_view(r@) == forwarded_entries(opt_str(forwarded_for), client_ip@, opt_str(host), opt_str(via)),
{
    let mut r: Vec<(String, String)> = Vec::new();
    r.push(pair("x-forwarded-for", append_item(forwarded_for, client_ip)));
    r.push(pair("x-forwarded-proto", String::from_str("http")));
    if let Some(h) = host {
        r.push(pair("x-forwarded-host", String::from_str(h)));
    }
    r.push(pair("via", append_item(via, "peregrine")));
    assert(pairs_view(r@) =~= forwarded_entries(opt_str(forwarded_for), client_ip@, opt_str(host), opt_str(via)));
    r
}

/// The path and query sent upstream: the path with the route prefix removed,
/// then "?" and the query when there is one.
pub open spec fn rewritten_target(path: Seq<char>, query: Option<Seq<char>>, prefix: Seq<char>) -> Seq<char> {
    match query {
        Some(q) => stripped_path(path, prefix) + "?"@ + q,
        None => stripped_path(path, prefix),
    }
}

/// The new request target for an upstream request under a route prefix.
pub fn rewrite_path(path: &str, query: Option<&str>, prefix: &str) -> (r: String)
    ensures
        r@ == rewritten_target(path@, opt_str(query), prefix@),
{
    let mut p = strip_route_prefix(path, prefix);
    if let Some(q) = query {
        p.append("?");
        p.append(q);
    }
    p
}

/// The rate-limit headers reported on an allowed, limited response.
pub open spec fn rate_limit_entries(d: RateLimitDecision) -> Entries {
    (match d.limit {
        Some(l) => seq![("x-ratelimit-limit"@, decimal(l as nat))],
        None => Seq::empty(),
    }) + (match d.remaining {
        Some(r) => seq![("x-ratelimit-remaining"@, decimal(r as nat))],
        None => Seq::empty(),
    }) + (match d.reset_after_secs {
        Some(t) => seq![("x-ratelimit-reset"@, decimal(t as nat))],
        None => Seq::empty(),
    })
}

/// The headers set on an upstream response, in order: the common response
/// headers, then, when the request was allowed by a rate limit, its
/// rate-limit headers.
pub open spec fn upstream_response_entries(c: AppConfig, decision: Option<RateLimitDecision>) -> Entries {
    configured_response_entries(c) + match decision {
        Some(d) => if d.allowed { rate_limit_entries(d) } else { Seq::empty() },
        None => Seq::empty(),
    }
}

fn push_number(r: &mut Vec<(String, String)>, name: &str, value: Option<u64>)
    ensures
        pairs_view(final(r)@) == pairs_view(old(r)@) + match value {
            Some(v) => seq![(name@, decimal(v as nat))],
            None => Seq::<(Seq<char>, Seq<char>)>::empty(),
        },
{
    if let Some(v) = value {
        r.push(pair(name, decimal_string(v)));
    }
    assert(pairs_view(r@) =~= pairs_view(old(r)@) + match value {
        Some(v) => seq![(name@, decimal(v as nat))],
        None => Seq::<(Seq<char>, Seq<char>)>::empty(),
    });
}

/// The headers to set on an upstream response, given the request's
/// rate-limit decision.
pub fn response_filter_headers(config: &AppConfig, decision: Option<&RateLimitDecision>) -> (r: Vec<(String, String)>)
    ensures
        pairs_view(r@) == upstream_response_entries(*config, match decision { Some(d) => Some(*d), None => None }),
{
    let headers = response_headers(config);
    let n = header_map_len(&headers);
    let mut r: Vec<(String, String)> = Vec::new();
    let mut i: usize = 0;
    while i < n
        invariant
            n == header_entries(headers).len(),
            i <= n,
            pairs_view(r@) == header_entries(headers).subrange(0, i as int),
        decreases n - i,
    {
        match header_map_get_index(&headers, i) {
            Some((k, v)) => {
                let ghost before = r@;
                let kc = k.clone();
                let vc = v.clone();
                r.push((kc, vc));
                assert(r@ == before.push((kc, vc)));
                assert(pairs_view(before).len() == i);
                assert(before.len() == i);
                assert(r@.len() == i + 1);
                assert(pairs_view(r@).len() == i + 1);
                assert(pairs_view(r@)[i as int] == (k@, v@));
                assert forall|j: int| 0 <= j < i implies pairs_view(r@)[j] == pairs_view(before)[j] by {
                    assert(r@[j] == before[j]);
                }
                assert(pairs_view(r@) =~= header_entries(headers).subrange(0, i + 1));
            },
            None => {
                assert(false);
            },
        }
        i = i + 1;
    }
    assert(header_entries(headers).subrange(0, n as int) =~= header_entries(headers));
    if let Some(d) = decision {
        if d.allowed {
            push_number(&mut r, "x-ratelimit-limit", d.limit);
            push_number(&mut r, "x-ratelimit-remaining", d.remaining);
            push_number(&mut r, "x-ratelimit-reset", d.reset_after_secs);
        }
    }
    r
}

/// The upstream of a request: its route's, or an unreachable placeholder
/// ("http://127.0.0.1:1") when it has none.
pub open spec fn context_upstream(ctx: RequestContext) -> Seq<char> {
    match ctx.route {
        Some(r) => r.upstream@,
        None => "http://127.0.0.1:1"@,
    }
}

/// The peer that a request's context sends it to.
pub fn upstream_target(ctx: &RequestContext) -> (r: Result<PeerTarget, UpstreamError>)
    ensures
        match r {
            Ok(t) => peer_for(context_upstream(*ctx)) == Ok::<(Seq<char>, bool, Seq<char>), PeerFault>((t.address@, t.use_tls, t.sni@)),
            Err(e) => peer_for(context_upstream(*ctx)) == Err::<(Seq<char>, bool, Seq<char>), PeerFault>(upstream_error_view(e)),
        },
{
    match &ctx.route {
        Some(route) => build_http_peer(route.upstream.as_str()),
        None => build_http_peer("http://127.0.0.1:1"),
    }
}

} // verus!

verus! {

/// Only a request that reaches a rate-limited proxy route is counted: a
/// preflight, the health check, a request refused by basic auth, a route
/// without a limit and a static or missing file all leave the counters as
/// they were. A refused request (401 or 429) is never forwarded.
pub proof fn law_only_limited_routes_count(c: AppConfig, m: Counters, req: IncomingRequest, now: u128)
    ensures
        ({
            let (m2, a) = planned_action(c, m, req, now);
            &&& !(a is Proxy || a is TooManyRequests) ==> m2 == m
            &&& a matches ActionView::Proxy { decision, .. } ==> decision.allowed
            &&& a matches ActionView::TooManyRequests { decision, .. } ==> !decision.allowed
        }),
{
}

/// A request refused by the rate limit is told when to retry: its 429
/// carries `retry-after` equal to the seconds until the window resets.
pub proof fn law_refusal_says_when_to_retry(c: AppConfig, m: Counters, req: IncomingRequest, now: u128)
    ensures
        planned_action(c, m, req, now).1 matches ActionView::TooManyRequests { decision, .. } ==> {
            &&& decision.retry_after_secs is Some
            &&& decision.retry_after_secs == decision.reset_after_secs
            &&& decision.remaining == Some(0u64)
        },
{
}

} // verus!

verus! {

/// One client's counters on two different routes are kept apart, and two
/// clients' counters on one route are kept apart.
pub proof fn lemma_route_keys_distinct(p1: Seq<char>, ip1: Seq<char>, p2: Seq<char>, ip2: Seq<char>)
    requires
        (ip1 == ip2 && p1 != p2) || (p1 == p2 && ip1 != ip2),
    ensures
        limiter_key(route_bucket(p1), ip1) != limiter_key(route_bucket(p2), ip2),
{
    let a = "route:"@;
    let b = ":"@;
    let k1 = a + p1 + b + ip1;
    let k2 = a + p2 + b + ip2;
    assert(limiter_key(route_bucket(p1), ip1) =~= k1);
    assert(limiter_key(route_bucket(p2), ip2) =~= k2);
    if k1 == k2 {
        if ip1 == ip2 {
            assert(p1.len() == p2.len());
            assert forall|k: int| 0 <= k < p1.len() implies p1[k] == p2[k] by {
                assert(k1[a.len() + k] == p1[k]);
                assert(k2[a.len() + k] == p2[k]);
            }
            assert(p1 =~= p2);
        } else {
            assert(ip1.len() == ip2.len());
            let off = a.len() + p1.len() + b.len();
            assert forall|k: int| 0 <= k < ip1.len() implies ip1[k] == ip2[k] by {
                assert(k1[off + k] == ip1[k]);
                assert(k2[off + k] == ip2[k]);
            }
            assert(ip1 =~= ip2);
        }
    }
}

/// Requests are counted per route and per client: a request leaves the
/// answer to a later request unchanged when the two come from the same
/// client to routes with different prefixes, or from different clients to
/// the same route prefix.
pub proof fn law_routes_and_clients_counted_separately(
    c: AppConfig,
    m: Counters,
    first: IncomingRequest,
    t1: u128,
    second: IncomingRequest,
    t2: u128,
)
    requires
        forall|i: int, j: int|
            is_chosen_route(c.proxy@, first.path@, i) && is_chosen_route(c.proxy@, second.path@, j) ==> {
                ||| first.client_ip@ == second.client_ip@ && c.proxy@[i].path@ != c.proxy@[j].path@
                ||| first.client_ip@ != second.client_ip@ && c.proxy@[i].path@ == c.proxy@[j].path@
            },
    ensures
        planned_action(c, planned_action(c, m, first, t1).0, second, t2).1 == planned_action(c, m, second, t2).1,
{
    let m1 = planned_action(c, m, first, t1).0;
    if m1 != m && exists|j: int| is_chosen_route(c.proxy@, second.path@, j) {
        let i = choose|i: int| is_chosen_route(c.proxy@, first.path@, i);
        let ra = matched_from(c.proxy@[i]);
        let j = choose|j: int| is_chosen_route(c.proxy@, second.path@, j);
        let rb = matched_from(c.proxy@[j]);
        let ka = limiter_key(route_bucket(ra.prefix@), first.client_ip@);
        let kb = limiter_key(route_bucket(rb.prefix@), second.client_ip@);
        let la = route_limit(c, ra)->0;
        assert(m1 == limiter_step(m, ka, la, t1).0);
        lemma_route_keys_distinct(ra.prefix@, first.client_ip@, rb.prefix@, second.client_ip@);
        assert(m1.contains_key(kb) == m.contains_key(kb));
        assert(m.contains_key(kb) ==> m1[kb] == m[kb]);
        assert forall|l: crate::config::schema::RateLimitConfig|
            #[trigger] limiter_step(m1, kb, l, t2).1 == limiter_step(m, kb, l, t2).1 by {
            assert(current_counter(m1, kb, l, t2) == current_counter(m, kb, l, t2));
        }
    }
}

} // verus!
