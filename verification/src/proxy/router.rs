//! Choosing the proxy route of a request path, and the path sent upstream.

use vstd::prelude::*;

use crate::config::schema::{BasicAuthConfig, ProxyRoute, RateLimitConfig};
use crate::text::{has_prefix, starts_with, str_eq};

verus! {

/// The route that a request matched, with the settings it carries.
pub struct MatchedRoute {
    pub prefix: String,
    pub upstream: String,
    pub rate_limit: Option<RateLimitConfig>,
    pub basic_auth: Option<BasicAuthConfig>,
}

fn clone_basic_auth(a: &Option<BasicAuthConfig>) -> (r: Option<BasicAuthConfig>)
    ensures
        r == *a,
{
    match a {
        Some(a) => Some(a.clone()),
        None => None,
    }
}

impl Clone for MatchedRoute {
    fn clone(&self) -> (r: Self)
        ensures
            r == *self,
    {
        MatchedRoute {
            prefix: self.prefix.clone(),
            upstream: self.upstream.clone(),
            rate_limit: self.rate_limit,
            basic_auth: clone_basic_auth(&self.basic_auth),
        }
    }
}

/// A request path falls under a route prefix: it is the prefix itself, or
/// the prefix followed by '/'.
pub open spec fn path_under(path: Seq<char>, prefix: Seq<char>) -> bool {
    path == prefix || has_prefix(path, prefix + seq!['/'])
}

/// Route `i` is the one a path goes to: it matches, no matching route has a
/// longer prefix, and no later matching route has one as long.
pub open spec fn is_chosen_route(routes: Seq<ProxyRoute>, path: Seq<char>, i: int) -> bool {
    &&& 0 <= i < routes.len()
    &&& path_under(path, routes[i].path@)
    &&& forall|j: int| 0 <= j < routes.len() && path_under(path, #[trigger] routes[j].path@)
        ==> routes[j].path@.len() <= routes[i].path@.len()
    &&& forall|j: int| i < j < routes.len() && path_under(path, #[trigger] routes[j].path@)
        ==> routes[j].path@.len() < routes[i].path@.len()
}

/// The matched route made from a configured route.
pub open spec fn matched_from(r: ProxyRoute) -> MatchedRoute {
    MatchedRoute { prefix: r.path, upstream: r.upstream, rate_limit: r.rate_limit, basic_auth: r.basic_auth }
}

/// Whether `path` falls under `prefix`.
pub fn path_matches_route(path: &str, prefix: &str) -> (r: bool)
    ensures
        r == path_under(path@, prefix@),
{
    if str_eq(path, prefix) {
        return true;
    }
    let mut with_slash = String::from_str(prefix);
    with_slash.append("/");
    proof {
        reveal_strlit("/");
    }
    assert(with_slash@ =~= prefix@ + seq!['/']);
    starts_with(path, with_slash.as_str())
}

/// The route with the longest prefix that `path` falls under; among routes
/// with equally long prefixes, the last one. `None` when no route matches.
pub fn match_proxy_route(routes: &[ProxyRoute], path: &str) -> (r: Option<MatchedRoute>)
    ensures
        match r {
            None => forall|j: int| 0 <= j < routes@.len() ==> !path_under(path@, #[trigger] routes@[j].path@),
            Some(m) => exists|i: int| is_chosen_route(routes@, path@, i) && m == matched_from(#[trigger] routes@[i]),
        },
{
    let mut best: Option<usize> = None;
    let mut best_len: usize = 0;
    let mut i: usize = 0;
    while i < routes.len()
        invariant
            i <= routes@.len(),
            match best {
                None => forall|j: int| 0 <= j < i ==> !path_under(path@, #[trigger] routes@[j].path@),
                Some(b) => {
                    &&& b < i
                    &&& best_len == routes@[b as int].path@.len()
                    &&& path_under(path@, routes@[b as int].path@)
                    &&& forall|j: int| 0 <= j < i && path_under(path@, #[trigger] routes@[j].path@)
                        ==> routes@[j].path@.len() <= best_len
                    &&& forall|j: int| b < j < i && path_under(path@, #[trigger] routes@[j].path@)
                        ==> routes@[j].path@.len() < best_len
                },
            },
        decreases routes@.len() - i,
    {
        let route = &routes[i];
        if path_matches_route(path, route.path.as_str()) {
            let len = route.path.as_str().unicode_len();
            let better = match best {
                None => true,
                Some(_) => len >= best_len,
            };
            if better {
                best = Some(i);
                best_len = len;
            }
        }
        i = i + 1;
    }
    match best {
        None => None,
        Some(b) => {
            let route = &routes[b];
            let m = MatchedRoute {
                prefix: route.path.clone(),
                upstream: route.upstream.clone(),
                rate_limit: route.rate_limit,
                basic_auth: clone_basic_auth(&route.basic_auth),
            };
            assert(is_chosen_route(routes@, path@, b as int));
            Some(m)
        },
    }
}

/// The path that the upstream receives for a request path under a route
/// prefix: "/" for the prefix itself, the rest after the prefix when that
/// rest starts with '/', and the path unchanged otherwise.
pub open spec fn stripped_path(path: Seq<char>, prefix: Seq<char>) -> Seq<char> {
    if path == prefix {
        seq!['/']
    } else if has_prefix(path, prefix) && path.len() > prefix.len() && path[prefix.len() as int] == '/' {
        path.subrange(prefix.len() as int, path.len() as int)
    } else {
        path
    }
}

/// Removes the route prefix from a request path.
pub fn strip_route_prefix(path: &str, prefix: &str) -> (r: String)
    ensures
        r@ == stripped_path(path@, prefix@),
{
    if str_eq(path, prefix) {
        proof {
            reveal_strlit("/");
        }
        return String::from_str("/");
    }
    let n = path.unicode_len();
    let m = prefix.unicode_len();
    if starts_with(path, prefix) && n > m && path.get_char(m) == '/' {
        let rest = path.substring_char(m, n);
        return String::from_str(rest);
    }
    String::from_str(path)
}

} // verus!

verus! {

/// At most one route is chosen for a path.
pub proof fn lemma_chosen_route_unique(routes: Seq<ProxyRoute>, path: Seq<char>, i: int, j: int)
    requires
        is_chosen_route(routes, path, i),
        is_chosen_route(routes, path, j),
    ensures
        i == j,
{
    assert(routes[i].path@.len() <= routes[j].path@.len());
    assert(routes[j].path@.len() <= routes[i].path@.len());
}

} // verus!

verus! {

/// A path under a route prefix, other than the prefix itself, is the prefix
/// followed by what the upstream receives, and that starts with '/'.
pub proof fn law_strip_restores_path(path: Seq<char>, prefix: Seq<char>)
    requires
        path_under(path, prefix),
        path != prefix,
    ensures
        prefix + stripped_path(path, prefix) == path,
        stripped_path(path, prefix).len() > 0,
        stripped_path(path, prefix)[0] == '/',
{
    let q = prefix + seq!['/'];
    assert(path.subrange(0, q.len() as int) == q);
    assert(path[prefix.len() as int] == path.subrange(0, q.len() as int)[prefix.len() as int]);
    assert(path.subrange(0, prefix.len() as int) =~= prefix) by {
        assert forall|i: int| 0 <= i < prefix.len() implies path[i] == prefix[i] by {
            assert(path[i] == path.subrange(0, q.len() as int)[i]);
            assert(q[i] == prefix[i]);
        }
    }
    assert(prefix + path.subrange(prefix.len() as int, path.len() as int) =~= path);
}

/// The route that a path is sent to has a prefix that the path falls under,
/// and no other matching route has a longer prefix.
pub proof fn law_longest_prefix_wins(routes: Seq<ProxyRoute>, path: Seq<char>, i: int, j: int)
    requires
        is_chosen_route(routes, path, i),
        0 <= j < routes.len(),
        path_under(path, routes[j].path@),
    ensures
        routes[j].path@.len() <= routes[i].path@.len(),
        has_prefix(path, routes[i].path@),
{
    let p = routes[i].path@;
    if path != p {
        let q = p + seq!['/'];
        assert(path.subrange(0, p.len() as int) =~= p) by {
            assert forall|k: int| 0 <= k < p.len() implies path.subrange(0, p.len() as int)[k] == p[k] by {
                assert(path[k] == path.subrange(0, q.len() as int)[k]);
                assert(q[k] == p[k]);
            }
        }
    } else {
        assert(path.subrange(0, p.len() as int) =~= p);
    }
}

} // verus!

verus! {

/// A path falls under a route prefix exactly when it starts with the prefix
/// and either ends there or continues with '/', at any depth below it.
pub proof fn law_path_under_prefix(path: Seq<char>, prefix: Seq<char>)
    ensures
        path_under(path, prefix) <==> (has_prefix(path, prefix)
            && (path.len() == prefix.len() || path[prefix.len() as int] == '/')),
{
    let q = prefix + seq!['/'];
    if has_prefix(path, prefix) && path.len() > prefix.len() && path[prefix.len() as int] == '/' {
        assert(path.subrange(0, q.len() as int) =~= q) by {
            assert forall|k: int| 0 <= k < q.len() implies path.subrange(0, q.len() as int)[k] == q[k] by {
                if k < prefix.len() {
                    assert(path[k] == path.subrange(0, prefix.len() as int)[k]);
                }
            }
        }
    }
    if has_prefix(path, prefix) && path.len() == prefix.len() {
        assert(path =~= path.subrange(0, prefix.len() as int));
    }
    if path_under(path, prefix) && path != prefix {
        assert(path.subrange(0, q.len() as int) == q);
        assert(path[prefix.len() as int] == path.subrange(0, q.len() as int)[prefix.len() as int]);
        assert(path.subrange(0, prefix.len() as int) =~= prefix) by {
            assert forall|k: int| 0 <= k < prefix.len() implies path.subrange(0, prefix.len() as int)[k] == prefix[k] by {
                assert(path[k] == path.subrange(0, q.len() as int)[k]);
            }
        }
    }
    if path == prefix {
        assert(path.subrange(0, prefix.len() as int) =~= prefix);
    }
}

/// Every path below a route prefix, however deep, falls under it: the prefix
/// itself and the prefix followed by '/' and anything.
pub proof fn law_subpaths_fall_under(prefix: Seq<char>, rest: Seq<char>)
    ensures
        path_under(prefix, prefix),
        path_under(prefix + seq!['/'] + rest, prefix),
{
    let p = prefix + seq!['/'] + rest;
    assert(p.subrange(0, prefix.len() as int) =~= prefix);
    assert(p[prefix.len() as int] == '/');
    law_path_under_prefix(p, prefix);
}

} // verus!
