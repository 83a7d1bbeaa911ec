//! The reverse proxy: a target (an upstream URL plus the path prefixes it
//! is responsible for, an empty prefix list meaning catch-all), the
//! handler that matches requests against the targets and plans the
//! upstream request, and the filtering of an upstream response's headers
//! on the way back to the client.

use vstd::prelude::*;

use crate::bytes::{begins_with, begins_with_exec, bytes_eq, copy_bytes, split_bytes, spec_split};
use crate::http::{
    spec_remove, BodySize, HeaderMap, RequestHead, RequestHeadV, Response, ResponseHead,
};
use crate::static_files::seq_views;
use crate::urlparts::{parse_url, url_parse_of, UrlParts, UrlPartsV};
use vstd::string::StringSliceAdditionalSpecFns;

verus! {

/// One upstream target: where to forward, and for which path prefixes.
/// No prefixes means the target takes every path.
#[derive(Debug, PartialEq, Eq)]
pub struct ProxyTarget {
    pub target: UrlParts,
    pub paths: Vec<Vec<u8>>,
}

/// Spec-level value of a `ProxyTarget`.
#[verifier::ext_equal]
pub struct ProxyTargetV {
    pub target: UrlPartsV,
    pub paths: Seq<Seq<u8>>,
}

impl View for ProxyTarget {
    type V = ProxyTargetV;

    open spec fn view(&self) -> ProxyTargetV {
        ProxyTargetV { target: self.target@, paths: seq_views(self.paths@) }
    }
}

/// Why a proxy target could not be read from its argument.
#[derive(Clone, Copy, PartialEq, Eq, Structural, Debug)]
pub enum ProxyError {
    /// The URL part did not parse, or the argument had more than one `~`.
    InvalidTarget,
}

impl ProxyError {
    /// A short description, for diagnostics.
    pub fn message(&self) -> &'static str {
        "invalid proxy target"
    }
}

/// What reading a proxy target from an argument string yields. The
/// argument is either a bare URL, or `prefix,prefix,...~URL`; `None`
/// where the URL does not parse or more than one `~` appears.
pub open spec fn spec_target_from(s: Seq<u8>) -> Option<ProxyTargetV> {
    let parts = spec_split(s, 126);
    if parts.len() == 1 {
        match url_parse_of(parts[0]) {
            Some(u) => Some(ProxyTargetV { target: u, paths: Seq::empty() }),
            None => None,
        }
    } else if parts.len() == 2 {
        match url_parse_of(parts[1]) {
            Some(u) => Some(ProxyTargetV { target: u, paths: spec_split(parts[0], 44) }),
            None => None,
        }
    } else {
        None
    }
}

impl ProxyTarget {
    /// Read a target from a `--proxy` argument (executable form of
    /// `spec_target_from`; every rejected argument gives
    /// `ProxyError::InvalidTarget`).
    pub fn from_str(s: &str) -> (r: Result<ProxyTarget, ProxyError>)
        ensures
            match r {
                Ok(t) => spec_target_from(s.spec_bytes()) == Some(t@),
                Err(e) => spec_target_from(s.spec_bytes()) is None && e
                    == ProxyError::InvalidTarget,
            },
    {
        Self::from_str_bytes(s.as_bytes())
    }

    /// `ProxyTarget::from_str` over bytes.
    pub fn from_str_bytes(s: &[u8]) -> (r: Result<ProxyTarget, ProxyError>)
        ensures
            match r {
                Ok(t) => spec_target_from(s@) == Some(t@),
                Err(e) => spec_target_from(s@) is None && e == ProxyError::InvalidTarget,
            },
    {
        let parts = split_bytes(s, 126);
        let ghost pviews = spec_split(s@, 126);
        if parts.len() == 1 {
            proof {
                assert(parts@[0]@ == pviews[0]);
            }
            match parse_url(parts[0].as_slice()) {
                Some(u) => {
                    let t = ProxyTarget { target: u, paths: Vec::new() };
                    proof {
                        assert(t@ =~~= ProxyTargetV { target: u@, paths: Seq::empty() });
                    }
                    Ok(t)
                },
                None => Err(ProxyError::InvalidTarget),
            }
        } else if parts.len() == 2 {
            proof {
                assert(parts@[0]@ == pviews[0]);
                assert(parts@[1]@ == pviews[1]);
            }
            match parse_url(parts[1].as_slice()) {
                Some(u) => {
                    let paths = split_bytes(parts[0].as_slice(), 44);
                    let t = ProxyTarget { target: u, paths };
                    proof {
                        assert(t@ =~~= ProxyTargetV {
                            target: u@,
                            paths: spec_split(pviews[0], 44),
                        });
                    }
                    Ok(t)
                },
                None => Err(ProxyError::InvalidTarget),
            }
        } else {
            Err(ProxyError::InvalidTarget)
        }
    }
}

/// A target takes a path when it has no prefixes at all, or when some
/// prefix begins the path.
pub open spec fn spec_target_matches(t: ProxyTargetV, path: Seq<u8>) -> bool {
    t.paths.len() == 0 || exists|j: int| 0 <= j < t.paths.len() && begins_with(
        path,
        #[trigger] t.paths[j],
    )
}

/// The proxy handler: an ordered list of upstream targets.
pub struct ProxyService {
    pub targets: Vec<ProxyTarget>,
}

impl ProxyService {
    /// Whether some target takes the request's path.
    pub open spec fn spec_check(self, req: RequestHeadV) -> bool {
        exists|i: int|
            0 <= i < self.targets@.len() && spec_target_matches(
                #[trigger] self.targets@[i]@,
                req.path,
            )
    }

    /// Executable form of `ProxyService::spec_check`.
    #[verifier::loop_isolation(false)]
    pub fn check_multi(&self, req: &RequestHead) -> (r: bool)
        ensures
            r == self.spec_check(req@),
    {
        let mut i: usize = 0;
        while i < self.targets.len()
            invariant
                i <= self.targets.len(),
                forall|k: int|
                    0 <= k < i ==> !spec_target_matches(#[trigger] self.targets@[k]@, req@.path),
            decreases self.targets.len() - i,
        {
            let t = &self.targets[i];
            if t.paths.len() == 0 {
                assert(spec_target_matches(self.targets@[i as int]@, req@.path));
                return true;
            }
            let mut j: usize = 0;
            while j < t.paths.len()
                invariant
                    j <= t.paths.len(),
                    forall|k: int| 0 <= k < j ==> !begins_with(req@.path, #[trigger] t@.paths[k]),
                decreases t.paths.len() - j,
            {
                if begins_with_exec(req.path.as_slice(), t.paths[j].as_slice()) {
                    assert(begins_with(req@.path, t@.paths[j as int]));
                    assert(spec_target_matches(self.targets@[i as int]@, req@.path));
                    return true;
                }
                j += 1;
            }
            assert(!spec_target_matches(self.targets@[i as int]@, req@.path));
            i += 1;
        }
        false
    }
}

/// A target with an empty prefix list is a catch-all: a proxy handler
/// holding one matches every request path whatsoever. (Which requests it
/// actually serves is then decided only by its place in the router's
/// order: an earlier, more specific handler that claims a path wins.)
pub proof fn lemma_catch_all(svc: &ProxyService, i: int, req: RequestHeadV)
    requires
        0 <= i < svc.targets@.len(),
        svc.targets@[i]@.paths.len() == 0,
    ensures
        svc.spec_check(req),
{
    assert(spec_target_matches(svc.targets@[i]@, req.path));
}

/// The planned upstream request: everything the transport needs to send
/// it on.
#[derive(Debug, PartialEq, Eq)]
pub struct UpstreamRequest {
    pub method: Vec<u8>,
    pub url: UrlParts,
    pub host: Vec<u8>,
    pub headers: HeaderMap,
}

/// Spec-level value of an `UpstreamRequest`.
#[verifier::ext_equal]
pub struct UpstreamRequestV {
    pub method: Seq<u8>,
    pub url: UrlPartsV,
    pub host: Seq<u8>,
    pub headers: Seq<(Seq<u8>, Seq<u8>)>,
}

impl View for UpstreamRequest {
    type V = UpstreamRequestV;

    open spec fn view(&self) -> UpstreamRequestV {
        UpstreamRequestV {
            method: self.method@,
            url: self.url@,
            host: self.host@,
            headers: self.headers@,
        }
    }
}

/// The upstream request planned for a client request. A target whose own
/// path is exactly `/` forwards the client's path unchanged; any other
/// target path is a fixed rewrite. The client's query string is kept
/// either way, the `host` header is rewritten to the upstream's host, and
/// headers that would leak local context (`upgrade-insecure-requests`,
/// `referer`, the incoming `host`) are stripped.
pub open spec fn spec_forward(target: UrlPartsV, req: RequestHeadV) -> UpstreamRequestV {
    UpstreamRequestV {
        method: req.method,
        url: UrlPartsV {
            scheme: target.scheme,
            host: target.host,
            port: target.port,
            path: if target.path == "/".spec_bytes() {
                req.path
            } else {
                target.path
            },
            query: req.query,
        },
        host: match target.host {
            Some(h) => h,
            None => Seq::empty(),
        },
        headers: spec_remove(
            spec_remove(
                spec_remove(req.headers, "upgrade-insecure-requests".spec_bytes()),
                "referer".spec_bytes(),
            ),
            "host".spec_bytes(),
        ),
    }
}

impl ProxyService {
    /// Plan the upstream request for `req` against the first target
    /// (executable form of `spec_forward`).
    pub fn call(&self, req: &RequestHead) -> (r: UpstreamRequest)
        requires
            self.targets@.len() > 0,
        ensures
            r@ == spec_forward(self.targets@[0]@.target, req@),
    {
        let target = &self.targets[0].target;
        let path = if bytes_eq(target.path.as_slice(), "/".as_bytes()) {
            copy_bytes(req.path.as_slice())
        } else {
            copy_bytes(target.path.as_slice())
        };
        let url = UrlParts {
            scheme: copy_bytes(target.scheme.as_slice()),
            host: match &target.host {
                Some(h) => Some(copy_bytes(h.as_slice())),
                None => None,
            },
            port: target.port,
            path,
            query: match &req.query {
                Some(q) => Some(copy_bytes(q.as_slice())),
                None => None,
            },
        };
        let host = match &target.host {
            Some(h) => copy_bytes(h.as_slice()),
            None => Vec::new(),
        };
        let mut headers = req.headers.duplicate();
        headers.remove("upgrade-insecure-requests".as_bytes());
        headers.remove("referer".as_bytes());
        headers.remove("host".as_bytes());
        let r = UpstreamRequest { method: copy_bytes(req.method.as_slice()), url, host, headers };
        proof {
            assert(r@ =~~= spec_forward(self.targets@[0]@.target, req@));
        }
        r
    }
}

/// The response handed back to the client for an upstream response: the
/// upstream's status and body, with the headers that would conflict with
/// proxied delivery (`content-security-policy`, `connection`) dropped.
pub fn proxy_response(status: u16, upstream_headers: &HeaderMap, body: Vec<u8>) -> (r: Response)
    ensures
        r@.head.status == status,
        r@.head.headers == spec_remove(
            spec_remove(upstream_headers@, "content-security-policy".spec_bytes()),
            "connection".spec_bytes(),
        ),
        r@.head.body_size == BodySize::Sized(body@.len() as usize),
        r@.body == body@,
{
    let mut headers = upstream_headers.duplicate();
    headers.remove("content-security-policy".as_bytes());
    headers.remove("connection".as_bytes());
    let size = BodySize::Sized(body.len());
    Response { head: ResponseHead { status, headers, body_size: size }, body }
}

} // verus!
