//! What the gateway reads of a URL, parsed by the `url` crate.

use vstd::prelude::*;

verus! {

/// The parts of a parsed URL that the gateway uses.
pub struct UrlParts {
    pub scheme: String,
    pub host: Option<String>,
    pub port: Option<u16>,
    pub port_or_default: Option<u16>,
}

/// The message of the error that `url::Url::parse` reports for `s`; `None`
/// when `s` parses.
pub uninterp spec fn url_parse_error(s: Seq<char>) -> Option<Seq<char>>;

/// `url::Url::scheme` of the URL that `s` parses to.
pub uninterp spec fn url_scheme(s: Seq<char>) -> Seq<char>;

/// `url::Url::host_str` of the URL that `s` parses to.
pub uninterp spec fn url_host(s: Seq<char>) -> Option<Seq<char>>;

/// `url::Url::port` of the URL that `s` parses to.
pub uninterp spec fn url_port(s: Seq<char>) -> Option<u16>;

/// The default port that the `url` crate knows for a scheme.
pub open spec fn known_default_port(scheme: Seq<char>) -> Option<u16> {
    if scheme == "http"@ || scheme == "ws"@ {
        Some(80u16)
    } else if scheme == "https"@ || scheme == "wss"@ {
        Some(443u16)
    } else if scheme == "ftp"@ {
        Some(21u16)
    } else {
        None
    }
}

/// The view of an optional string.
pub open spec fn opt_view(o: Option<String>) -> Option<Seq<char>> {
    match o {
        Some(s) => Some(s@),
        None => None,
    }
}

/// Calls `url::Url::parse` and reads `scheme`, `host_str`, `port` and
/// `port_or_known_default` of the result, or the error's message. The source
/// of `port_or_known_default` is the port, or else the scheme's default port
/// (http and ws 80, https and wss 443, ftp 21).
#[verifier::external_body]
pub(crate) fn parse_url(s: &str) -> (r: Result<UrlParts, String>)
    ensures
        match r {
            Ok(p) => {
                &&& url_parse_error(s@) is None
                &&& p.scheme@ == url_scheme(s@)
                &&& opt_view(p.host) == url_host(s@)
                &&& p.port == url_port(s@)
                &&& p.port_or_default == match url_port(s@) {
                    Some(x) => Some(x),
                    None => known_default_port(url_scheme(s@)),
                }
            },
            Err(e) => url_parse_error(s@) == Some(e@),
        },
{
    match url::Url::parse(s) {
        Ok(u) => Ok(UrlParts {
            scheme: u.scheme().to_string(),
            host: u.host_str().map(str::to_string),
            port: u.port(),
            port_or_default: u.port_or_known_default(),
        }),
        Err(e) => Err(e.to_string()),
    }
}

} // verus!
