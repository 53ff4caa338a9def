//! Where a proxied request is sent.

use vstd::prelude::*;

use crate::net::url_parts::{known_default_port, parse_url, url_host, url_parse_error, url_port, url_scheme};
use crate::text::{decimal, decimal_string, str_eq};

verus! {

/// The peer that a request is forwarded to: "host:port", whether TLS is
/// used, and the TLS server name (empty without TLS).
pub struct PeerTarget {
    pub address: String,
    pub use_tls: bool,
    pub sni: String,
}

/// Why an upstream cannot be used.
pub enum UpstreamError {
    InvalidUrl { reason: String },
    MissingHost,
    MissingPort,
}

/// The port of an upstream URL, or the default port of its scheme.
pub open spec fn upstream_port(u: Seq<char>) -> Option<u16> {
    match url_port(u) {
        Some(p) => Some(p),
        None => known_default_port(url_scheme(u)),
    }
}

/// Why an upstream cannot be used, with texts as character sequences.
pub enum PeerFault {
    InvalidUrl { reason: Seq<char> },
    MissingHost,
    MissingPort,
}

pub open spec fn upstream_error_view(e: UpstreamError) -> PeerFault {
    match e {
        UpstreamError::InvalidUrl { reason } => PeerFault::InvalidUrl { reason: reason@ },
        UpstreamError::MissingHost => PeerFault::MissingHost,
        UpstreamError::MissingPort => PeerFault::MissingPort,
    }
}

/// The peer for an upstream URL: its host and port (the scheme's default
/// when none is given), with TLS and SNI for "https".
pub open spec fn peer_for(u: Seq<char>) -> Result<(Seq<char>, bool, Seq<char>), PeerFault> {
    match url_parse_error(u) {
        Some(reason) => Err(PeerFault::InvalidUrl { reason }),
        None => match url_host(u) {
            None => Err(PeerFault::MissingHost),
            Some(host) => match upstream_port(u) {
                None => Err(PeerFault::MissingPort),
                Some(port) => {
                    let tls = url_scheme(u) == "https"@;
                    Ok((host + seq![':'] + decimal(port as nat), tls, if tls { host } else { Seq::empty() }))
                },
            },
        },
    }
}

/// The value of the `host` header sent upstream: the URL's host, with
/// ":port" when the URL names a port other than its scheme's default.
pub open spec fn authority_for(u: Seq<char>) -> Result<Seq<char>, PeerFault> {
    match url_parse_error(u) {
        Some(reason) => Err(PeerFault::InvalidUrl { reason }),
        None => match url_host(u) {
            None => Err(PeerFault::MissingHost),
            Some(host) => match url_port(u) {
                None => Ok(host),
                Some(port) => Ok(host + seq![':'] + decimal(port as nat)),
            },
        },
    }
}

fn host_port(host: &String, port: u16) -> (r: String)
    ensures
        r@ == host@ + seq![':'] + decimal(port as nat),
{
    let mut s = host.clone();
    s.append(":");
    proof {
        reveal_strlit(":");
    }
    let p = decimal_string(port as u64);
    s.append(p.as_str());
    s
}

/// Resolves an upstream URL to the peer that requests are sent to.
pub fn build_http_peer(upstream: &str) -> (r: Result<PeerTarget, UpstreamError>)
    ensures
        match r {
            Ok(t) => peer_for(upstream@) == Ok::<(Seq<char>, bool, Seq<char>), PeerFault>((t.address@, t.use_tls, t.sni@)),
            Err(e) => peer_for(upstream@) == Err::<(Seq<char>, bool, Seq<char>), PeerFault>(upstream_error_view(e)),
        },
{
    let url = match parse_url(upstream) {
        Err(reason) => return Err(UpstreamError::InvalidUrl { reason }),
        Ok(u) => u,
    };
    let host = match url.host {
        None => return Err(UpstreamError::MissingHost),
        Some(h) => h,
    };
    let port = match url.port_or_default {
        None => return Err(UpstreamError::MissingPort),
        Some(p) => p,
    };
    let address = host_port(&host, port);
    let use_tls = str_eq(url.scheme.as_str(), "https");
    let sni = if use_tls { host } else { String::new() };
    Ok(PeerTarget { address, use_tls, sni })
}

/// The `host` header value for an upstream URL.
pub fn upstream_authority(upstream: &str) -> (r: Result<String, UpstreamError>)
    ensures
        match r {
            Ok(a) => authority_for(upstream@) == Ok::<Seq<char>, PeerFault>(a@),
            Err(e) => authority_for(upstream@) == Err::<Seq<char>, PeerFault>(upstream_error_view(e)),
        },
{
    let url = match parse_url(upstream) {
        Err(reason) => return Err(UpstreamError::InvalidUrl { reason }),
        Ok(u) => u,
    };
    let host = match url.host {
        None => return Err(UpstreamError::MissingHost),
        Some(h) => h,
    };
    match url.port {
        None => Ok(host),
        Some(port) => Ok(host_port(&host, port)),
    }
}

} // verus!

verus! {

/// The `host` header sent upstream names the URL's host, followed by
/// ":port" exactly when the URL gives a port explicitly, whatever its
/// scheme; with an explicit port it is the address the peer is reached at.
pub proof fn law_authority_from_host_and_port(u: Seq<char>)
    requires
        url_parse_error(u) is None,
        url_host(u) is Some,
    ensures
        url_port(u) matches Some(p) ==> authority_for(u) == Ok::<Seq<char>, PeerFault>(
            url_host(u)->0 + seq![':'] + decimal(p as nat),
        ),
        url_port(u) matches Some(p) ==> peer_for(u) matches Ok((addr, _, _)) && authority_for(u) == Ok::<Seq<char>, PeerFault>(addr),
        url_port(u) is None ==> authority_for(u) == Ok::<Seq<char>, PeerFault>(url_host(u)->0),
{
}

} // verus!
