//! Request rewriting: the pieces of an upstream URL, the forward URI built
//! from them, and the choice of transport by scheme.
//!
//! The URL itself is taken apart by the http crate's `Uri` (re-exported by
//! hyper), behind a trusted wrapper; everything built from the pieces is
//! verified.

use vstd::prelude::*;
use crate::text::str_eq;
use vstd::string::StringExecFns;

verus! {

/// The pieces of an upstream URL that rewriting needs: its scheme, its host,
/// and its port as written, if any.
#[derive(Debug)]
pub struct UriParts {
    pub scheme: String,
    pub host: String,
    pub port: Option<String>,
}

/// The pieces of a URL as hyper's `Uri` parses it: nothing when the URL does
/// not parse or has no scheme or no host. The result depends on the string
/// alone.
pub uninterp spec fn uri_parts_of(s: Seq<char>) -> Option<UriParts>;

/// Relies on hyper's `Uri` (the http crate): `Uri::try_from` parses the URL;
/// `scheme_str`, `host` and `port` hand out its components.
#[verifier::external_body]
fn split_uri(url: &str) -> (r: Option<UriParts>)
    ensures
        r == uri_parts_of(url@),
{
    let uri = match hyper::Uri::try_from(url) {
        Ok(u) => u,
        Err(_) => {
            return None;
        },
    };
    let scheme = uri.scheme_str()?.to_string();
    let host = uri.host()?.to_string();
    let port = uri.port().map(|p| p.as_str().to_string());
    Some(UriParts { scheme, host, port })
}

impl crate::config::OpenApiConfig {
    /// The pieces of this upstream's configured URL, as hyper's `Uri`
    /// parses it; nothing when the URL is not an absolute URI.
    pub fn uri(&self) -> (r: Option<UriParts>)
        ensures
            r == uri_parts_of(self.url@),
    {
        split_uri(self.url.as_str())
    }
}

/// The URI a claimed request is forwarded to, and the `Host` header that
/// goes with it: `scheme://host[:port]` followed by the original path and
/// query, with the bare host (never the port) as the header value.
pub fn forward_target(parts: &UriParts, path_query: &str) -> (r: (String, String))
    ensures
        r.0@ == parts.scheme@ + "://"@ + parts.host@ + (match parts.port {
            Some(p) => ":"@ + p@,
            None => Seq::<char>::empty(),
        }) + path_query@,
        r.1@ == parts.host@,
{
    let mut uri = parts.scheme.clone();
    uri.append("://");
    uri.append(parts.host.as_str());
    match &parts.port {
        Some(p) => {
            uri.append(":");
            uri.append(p.as_str());
        },
        None => {},
    }
    uri.append(path_query);
    let host = parts.host.clone();
    proof {
        assert(uri@ =~= parts.scheme@ + "://"@ + parts.host@ + (match parts.port {
            Some(p) => ":"@ + p@,
            None => Seq::<char>::empty(),
        }) + path_query@);
    }
    (uri, host)
}

/// The transport a scheme calls for.
#[derive(Clone, Copy, Debug, PartialEq, Eq, Structural)]
pub enum SchemeKind {
    Http,
    Https,
}

/// The transport for a URL scheme: plain for `http`, TLS for `https`,
/// nothing for anything else.
pub fn scheme_kind(scheme: &str) -> (r: Option<SchemeKind>)
    ensures
        scheme@ == "http"@ ==> r == Some(SchemeKind::Http),
        scheme@ == "https"@ ==> r == Some(SchemeKind::Https),
        scheme@ != "http"@ && scheme@ != "https"@ ==> r is None,
{
    proof {
        reveal_strlit("http");
        reveal_strlit("https");
        assert("http"@.len() == 4);
        assert("https"@.len() == 5);
        assert("http"@ != "https"@);
    }
    if str_eq(scheme, "http") {
        Some(SchemeKind::Http)
    } else if str_eq(scheme, "https") {
        Some(SchemeKind::Https)
    } else {
        None
    }
}

} // verus!
