//! A URL broken into the plain pieces the proxy logic reads: scheme, host,
//! port, path and query. Parsing a string into those pieces is the one job
//! delegated to the `url` crate; everything built from the pieces is
//! verified here.

use vstd::prelude::*;

use crate::bytes::{dec_digits, push_all, u16_to_dec};
use vstd::string::StringSliceAdditionalSpecFns;

verus! {

/// The pieces of a parsed URL.
#[derive(Debug, PartialEq, Eq)]
pub struct UrlParts {
    pub scheme: Vec<u8>,
    pub host: Option<Vec<u8>>,
    pub port: Option<u16>,
    pub path: Vec<u8>,
    pub query: Option<Vec<u8>>,
}

/// Spec-level value of `UrlParts`.
pub struct UrlPartsV {
    pub scheme: Seq<u8>,
    pub host: Option<Seq<u8>>,
    pub port: Option<u16>,
    pub path: Seq<u8>,
    pub query: Option<Seq<u8>>,
}

impl View for UrlParts {
    type V = UrlPartsV;

    open spec fn view(&self) -> UrlPartsV {
        UrlPartsV {
            scheme: self.scheme@,
            host: match self.host {
                Some(h) => Some(h@),
                None => None,
            },
            port: self.port,
            path: self.path@,
            query: match self.query {
                Some(q) => Some(q@),
                None => None,
            },
        }
    }
}

/// What `url::Url::parse` makes of the given bytes: `None` where it
/// rejects them, otherwise the parsed scheme, host, port, path and query.
/// The port is `None` when it is the scheme's default, and the path is
/// already normalized (never empty for http and https).
pub uninterp spec fn url_parse_of(s: Seq<u8>) -> Option<UrlPartsV>;

/// Relies on `url::Url::parse` and its accessors `scheme`, `host_str`,
/// `port`, `path` and `query`: the parse is a pure function of the input
/// string, and input that is not UTF-8 is never a valid URL.
#[verifier::external_body]
pub fn parse_url(s: &[u8]) -> (r: Option<UrlParts>)
    ensures
        match r {
            Some(u) => url_parse_of(s@) == Some(u@),
            None => url_parse_of(s@) is None,
        },
{
    let text = match core::str::from_utf8(s) {
        Ok(t) => t,
        Err(_) => return None,
    };
    match url::Url::parse(text) {
        Ok(u) => Some(UrlParts {
            scheme: u.scheme().as_bytes().to_vec(),
            host: u.host_str().map(|h| h.as_bytes().to_vec()),
            port: u.port(),
            path: u.path().as_bytes().to_vec(),
            query: u.query().map(|q| q.as_bytes().to_vec()),
        }),
        Err(_) => None,
    }
}

/// `scheme://host`, the origin without any port.
pub open spec fn spec_origin(u: UrlPartsV) -> Seq<u8> {
    u.scheme + "://".spec_bytes() + match u.host {
        Some(h) => h,
        None => Seq::<u8>::empty(),
    }
}

/// `scheme://host[:port][path][?query]`, the whole URL written back out.
pub open spec fn spec_url_string(u: UrlPartsV) -> Seq<u8> {
    spec_origin(u) + (match u.port {
        Some(p) => ":".spec_bytes() + dec_digits(p as nat),
        None => Seq::<u8>::empty(),
    }) + u.path + (match u.query {
        Some(q) => "?".spec_bytes() + q,
        None => Seq::<u8>::empty(),
    })
}

impl UrlParts {
    /// The origin, `scheme://host`, written out.
    pub fn origin(&self) -> (r: Vec<u8>)
        ensures
            r@ == spec_origin(self@),
    {
        let mut out: Vec<u8> = Vec::new();
        push_all(&mut out, self.scheme.as_slice());
        push_all(&mut out, "://".as_bytes());
        match &self.host {
            Some(h) => push_all(&mut out, h.as_slice()),
            None => (),
        }
        out
    }

    /// The whole URL written back out of its pieces.
    pub fn url_string(&self) -> (r: Vec<u8>)
        ensures
            r@ == spec_url_string(self@),
    {
        let mut out = self.origin();
        match self.port {
            Some(p) => {
                push_all(&mut out, ":".as_bytes());
                let digits = u16_to_dec(p);
                push_all(&mut out, digits.as_slice());
            },
            None => (),
        }
        push_all(&mut out, self.path.as_slice());
        match &self.query {
            Some(q) => {
                push_all(&mut out, "?".as_bytes());
                push_all(&mut out, q.as_slice());
            },
            None => (),
        }
        proof {
            assert(out@ =~= spec_url_string(self@));
        }
        out
    }
}

} // verus!
