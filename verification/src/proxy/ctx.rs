//! Per-request state kept while a request is proxied.

use std::time::Instant;
use vstd::prelude::*;

use crate::clock::instant_now;
use crate::filter::rate_limit::RateLimitDecision;
use crate::proxy::router::MatchedRoute;

verus! {

/// What the gateway remembers about one request.
pub struct RequestContext {
    pub route: Option<MatchedRoute>,
    pub start: Instant,
    pub rate_limited: bool,
    pub rate_limit_decision: Option<RateLimitDecision>,
}

impl RequestContext {
    /// A context started now, with no route and no rate-limit decision yet.
    pub fn new() -> (r: Self)
        ensures
            r.route is None,
            !r.rate_limited,
            r.rate_limit_decision is None,
    {
        RequestContext { route: None, start: instant_now(), rate_limited: false, rate_limit_decision: None }
    }
}

} // verus!
