//! Static file serving: lexical resolution of a request path under a
//! directory root, with traversal rejected, plus the handler that serves
//! the resolved file (or a configured index file, with a trailing-slash
//! redirect) out of the file tree it is given.

use vstd::prelude::*;

use crate::bytes::{
    begins_with, begins_with_exec, bytes_eq, copy_bytes, ends_with, ends_with_exec, push_all,
    spec_split, split_bytes,
};
use crate::http::{
    empty_response, redirect_response, spec_empty_response, spec_get, spec_is_get_or_head,
    spec_redirect_response, spec_text_response, text_response, text_response_bytes, is_get_or_head,
    RequestHead, RequestHeadV, Response, ResponseV,
};
use crate::vfs::{spec_contains_path, spec_is_dir, spec_lookup, Vfs};
use vstd::string::StringSliceAdditionalSpecFns;

verus! {

/// The views of a sequence of byte vectors.
pub open spec fn seq_views(s: Seq<Vec<u8>>) -> Seq<Seq<u8>> {
    s.map_values(|v: Vec<u8>| v@)
}

/// Lexical normalization of path segments. Empty segments disappear,
/// `..` steps back up — but never above the root: a `..` with nothing
/// left to pop rejects the path — and any other segment that starts with
/// a dot is rejected outright.
pub open spec fn spec_normalize(segs: Seq<Seq<u8>>) -> Option<Seq<Seq<u8>>>
    decreases segs.len(),
{
    if segs.len() == 0 {
        Some(Seq::empty())
    } else {
        match spec_normalize(segs.drop_last()) {
            None => None,
            Some(st) => {
                let seg = segs.last();
                if seg.len() == 0 {
                    Some(st)
                } else if seg == "..".spec_bytes() {
                    if st.len() == 0 {
                        None
                    } else {
                        Some(st.drop_last())
                    }
                } else if seg[0] == 46 {
                    None
                } else {
                    Some(st.push(seg))
                }
            },
        }
    }
}

/// Once normalization has failed on a prefix, it fails on the whole.
pub proof fn lemma_normalize_none_persists(segs: Seq<Seq<u8>>, i: int)
    requires
        0 <= i <= segs.len(),
        spec_normalize(segs.take(i)) is None,
    ensures
        spec_normalize(segs) is None,
    decreases segs.len() - i,
{
    if i == segs.len() {
        assert(segs.take(i) =~= segs);
    } else {
        assert(segs.take(i + 1).drop_last() =~= segs.take(i));
        lemma_normalize_none_persists(segs, i + 1);
    }
}

/// Executable form of `spec_normalize`.
pub fn normalize_segments(segs: &Vec<Vec<u8>>) -> (r: Option<Vec<Vec<u8>>>)
    ensures
        match r {
            Some(st) => spec_normalize(seq_views(segs@)) == Some(seq_views(st@)),
            None => spec_normalize(seq_views(segs@)) is None,
        },
{
    let ghost views = seq_views(segs@);
    let mut stack: Vec<Vec<u8>> = Vec::new();
    let mut i: usize = 0;
    proof {
        assert(views.take(0) =~= Seq::<Seq<u8>>::empty());
        assert(seq_views(stack@) =~= Seq::<Seq<u8>>::empty());
    }
    while i < segs.len()
        invariant
            i <= segs.len(),
            views == seq_views(segs@),
            spec_normalize(views.take(i as int)) == Some(seq_views(stack@)),
        decreases segs.len() - i,
    {
        let ghost st0 = seq_views(stack@);
        proof {
            assert(views.take(i + 1).drop_last() =~= views.take(i as int));
            assert(views.take(i + 1).last() == segs@[i as int]@);
        }
        let seg = &segs[i];
        if seg.len() == 0 {
            // an empty segment disappears
        } else if bytes_eq(seg.as_slice(), "..".as_bytes()) {
            if stack.len() == 0 {
                proof {
                    lemma_normalize_none_persists(views, i + 1);
                }
                return None;
            }
            stack.pop();
            proof {
                assert(seq_views(stack@) =~= st0.drop_last());
            }
        } else if seg[0] == 46 {
            proof {
                lemma_normalize_none_persists(views, i + 1);
            }
            return None;
        } else {
            let dup = copy_bytes(seg.as_slice());
            stack.push(dup);
            proof {
                assert(seq_views(stack@) =~= st0.push(segs@[i as int]@));
            }
        }
        i += 1;
    }
    proof {
        assert(views.take(views.len() as int) =~= views);
    }
    Some(stack)
}

/// `dir` with every segment appended below it, one `/` before each.
pub open spec fn spec_join(dir: Seq<u8>, segs: Seq<Seq<u8>>) -> Seq<u8>
    decreases segs.len(),
{
    if segs.len() == 0 {
        dir
    } else {
        spec_join(dir, segs.drop_last()) + "/".spec_bytes() + segs.last()
    }
}

/// Executable form of `spec_join`.
pub fn join_under(dir: &[u8], segs: &Vec<Vec<u8>>) -> (r: Vec<u8>)
    ensures
        r@ == spec_join(dir@, seq_views(segs@)),
{
    let ghost views = seq_views(segs@);
    let mut out = copy_bytes(dir);
    let mut i: usize = 0;
    proof {
        assert(views.take(0) =~= Seq::<Seq<u8>>::empty());
    }
    while i < segs.len()
        invariant
            i <= segs.len(),
            views == seq_views(segs@),
            out@ == spec_join(dir@, views.take(i as int)),
        decreases segs.len() - i,
    {
        proof {
            assert(views.take(i + 1).drop_last() =~= views.take(i as int));
            assert(views.take(i + 1).last() == segs@[i as int]@);
        }
        push_all(&mut out, "/".as_bytes());
        push_all(&mut out, segs[i].as_slice());
        i += 1;
    }
    proof {
        assert(views.take(views.len() as int) =~= views);
    }
    out
}

/// Where a request path lands under a directory root: the root joined
/// with the normalized segments, or nothing when normalization rejects
/// the path.
pub open spec fn spec_file_path(path: Seq<u8>, dir: Seq<u8>) -> Option<Seq<u8>> {
    match spec_normalize(spec_split(path, 47)) {
        None => None,
        Some(segs) => Some(spec_join(dir, segs)),
    }
}

/// Executable form of `spec_file_path`.
pub fn file_path(path: &[u8], dir: &[u8]) -> (r: Option<Vec<u8>>)
    ensures
        match r {
            Some(p) => spec_file_path(path@, dir@) == Some(p@),
            None => spec_file_path(path@, dir@) is None,
        },
{
    let segs = split_bytes(path, 47);
    match normalize_segments(&segs) {
        Some(st) => Some(join_under(dir, &st)),
        None => None,
    }
}

/// The content type served for a path, by its extension; anything
/// unknown goes out as an opaque byte stream.
pub open spec fn spec_mime_of(p: Seq<u8>) -> Seq<u8> {
    if ends_with(p, ".html".spec_bytes()) || ends_with(p, ".htm".spec_bytes()) {
        "text/html".spec_bytes()
    } else if ends_with(p, ".css".spec_bytes()) {
        "text/css".spec_bytes()
    } else if ends_with(p, ".js".spec_bytes()) || ends_with(p, ".mjs".spec_bytes()) {
        "application/javascript".spec_bytes()
    } else if ends_with(p, ".json".spec_bytes()) {
        "application/json".spec_bytes()
    } else if ends_with(p, ".txt".spec_bytes()) {
        "text/plain".spec_bytes()
    } else if ends_with(p, ".xml".spec_bytes()) {
        "text/xml".spec_bytes()
    } else if ends_with(p, ".svg".spec_bytes()) {
        "image/svg+xml".spec_bytes()
    } else if ends_with(p, ".png".spec_bytes()) {
        "image/png".spec_bytes()
    } else if ends_with(p, ".jpg".spec_bytes()) || ends_with(p, ".jpeg".spec_bytes()) {
        "image/jpeg".spec_bytes()
    } else if ends_with(p, ".gif".spec_bytes()) {
        "image/gif".spec_bytes()
    } else if ends_with(p, ".webp".spec_bytes()) {
        "image/webp".spec_bytes()
    } else if ends_with(p, ".ico".spec_bytes()) {
        "image/x-icon".spec_bytes()
    } else if ends_with(p, ".woff".spec_bytes()) {
        "font/woff".spec_bytes()
    } else if ends_with(p, ".woff2".spec_bytes()) {
        "font/woff2".spec_bytes()
    } else if ends_with(p, ".wasm".spec_bytes()) {
        "application/wasm".spec_bytes()
    } else if ends_with(p, ".pdf".spec_bytes()) {
        "application/pdf".spec_bytes()
    } else {
        "application/octet-stream".spec_bytes()
    }
}

/// Executable form of `spec_mime_of`.
pub fn mime_of(p: &[u8]) -> (r: Vec<u8>)
    ensures
        r@ == spec_mime_of(p@),
{
    if ends_with_exec(p, ".html".as_bytes()) || ends_with_exec(p, ".htm".as_bytes()) {
        copy_bytes("text/html".as_bytes())
    } else if ends_with_exec(p, ".css".as_bytes()) {
        copy_bytes("text/css".as_bytes())
    } else if ends_with_exec(p, ".js".as_bytes()) || ends_with_exec(p, ".mjs".as_bytes()) {
        copy_bytes("application/javascript".as_bytes())
    } else if ends_with_exec(p, ".json".as_bytes()) {
        copy_bytes("application/json".as_bytes())
    } else if ends_with_exec(p, ".txt".as_bytes()) {
        copy_bytes("text/plain".as_bytes())
    } else if ends_with_exec(p, ".xml".as_bytes()) {
        copy_bytes("text/xml".as_bytes())
    } else if ends_with_exec(p, ".svg".as_bytes()) {
        copy_bytes("image/svg+xml".as_bytes())
    } else if ends_with_exec(p, ".png".as_bytes()) {
        copy_bytes("image/png".as_bytes())
    } else if ends_with_exec(p, ".jpg".as_bytes()) || ends_with_exec(p, ".jpeg".as_bytes()) {
        copy_bytes("image/jpeg".as_bytes())
    } else if ends_with_exec(p, ".gif".as_bytes()) {
        copy_bytes("image/gif".as_bytes())
    } else if ends_with_exec(p, ".webp".as_bytes()) {
        copy_bytes("image/webp".as_bytes())
    } else if ends_with_exec(p, ".ico".as_bytes()) {
        copy_bytes("image/x-icon".as_bytes())
    } else if ends_with_exec(p, ".woff".as_bytes()) {
        copy_bytes("font/woff".as_bytes())
    } else if ends_with_exec(p, ".woff2".as_bytes()) {
        copy_bytes("font/woff2".as_bytes())
    } else if ends_with_exec(p, ".wasm".as_bytes()) {
        copy_bytes("application/wasm".as_bytes())
    } else if ends_with_exec(p, ".pdf".as_bytes()) {
        copy_bytes("application/pdf".as_bytes())
    } else {
        copy_bytes("application/octet-stream".as_bytes())
    }
}

/// The notification emitted once per successfully served file, consumed
/// by the live-reload watcher outside this library. Loss of the message
/// must not affect request handling, so the handler merely hands it back.
#[derive(Debug, PartialEq, Eq)]
pub struct ServedFile {
    pub path: Vec<u8>,
    pub web_path: Vec<u8>,
    pub referer: Option<Vec<u8>>,
}

/// Spec-level value of a `ServedFile`.
#[verifier::ext_equal]
pub struct ServedFileV {
    pub path: Seq<u8>,
    pub web_path: Seq<u8>,
    pub referer: Option<Seq<u8>>,
}

impl View for ServedFile {
    type V = ServedFileV;

    open spec fn view(&self) -> ServedFileV {
        ServedFileV {
            path: self.path@,
            web_path: self.web_path@,
            referer: match self.referer {
                Some(r) => Some(r@),
                None => None,
            },
        }
    }
}

/// The view of an optional notification.
pub open spec fn served_view(o: Option<ServedFile>) -> Option<ServedFileV> {
    match o {
        Some(s) => Some(s@),
        None => None,
    }
}

/// The notification for a file at `abs` served for a request.
pub open spec fn spec_served(abs: Seq<u8>, req: RequestHeadV) -> ServedFileV {
    ServedFileV {
        path: abs,
        web_path: if req.path.len() == 0 {
            "/".spec_bytes()
        } else {
            req.path
        },
        referer: spec_get(req.headers, "referer".spec_bytes()),
    }
}

/// Serves a directory under a mount prefix: the assembled file serving
/// service. Only GET and HEAD are answered, and there is no directory
/// listing: a directory with no configured index file gets a 404.
pub struct FilesService {
    pub route: Vec<u8>,
    pub directory: Vec<u8>,
    pub index: Option<Vec<u8>>,
    pub redirect_to_slash: bool,
}

impl FilesService {
    /// A service mounted at `route` serving `directory`, with an optional
    /// index file and trailing-slash redirects for directories.
    pub fn new(route: &str, directory: &str, index: Option<&str>, redirect_to_slash: bool) -> (r:
        FilesService)
        ensures
            r.route@ == route.spec_bytes(),
            r.directory@ == directory.spec_bytes(),
            match (r.index, index) {
                (Some(a), Some(b)) => a@ == b.spec_bytes(),
                (None, None) => true,
                _ => false,
            },
            r.redirect_to_slash == redirect_to_slash,
    {
        FilesService {
            route: copy_bytes(route.as_bytes()),
            directory: copy_bytes(directory.as_bytes()),
            index: match index {
                Some(s) => Some(copy_bytes(s.as_bytes())),
                None => None,
            },
            redirect_to_slash,
        }
    }

    /// Whether this service takes the request: the path lies under the
    /// mount prefix and resolves, without traversal, to something that
    /// exists in the file tree.
    pub open spec fn spec_check(
        self,
        req: RequestHeadV,
        vfs: Seq<(Seq<u8>, Seq<u8>)>,
    ) -> bool {
        begins_with(req.path, self.route@) && match spec_file_path(req.path, self.directory@) {
            Some(p) => spec_contains_path(vfs, p),
            None => false,
        }
    }

    /// Executable form of `FilesService::spec_check`.
    pub fn check_multi(&self, req: &RequestHead, vfs: &Vfs) -> (r: bool)
        ensures
            r == self.spec_check(req@, vfs@),
    {
        if !begins_with_exec(req.path.as_slice(), self.route.as_slice()) {
            return false;
        }
        match file_path(req.path.as_slice(), self.directory.as_slice()) {
            Some(p) => vfs.contains_path(p.as_slice()),
            None => false,
        }
    }

    /// What serving the request yields: the response, and the
    /// file-served notification where a file actually went out.
    pub open spec fn spec_handle(
        self,
        req: RequestHeadV,
        vfs: Seq<(Seq<u8>, Seq<u8>)>,
    ) -> (ResponseV, Option<ServedFileV>) {
        if !spec_is_get_or_head(req.method) {
            (
                spec_text_response(
                    405,
                    "text/plain".spec_bytes(),
                    "Request did not meet this resource's requirements.".spec_bytes(),
                ),
                None,
            )
        } else {
            match spec_file_path(req.path, self.directory@) {
                None => (spec_empty_response(400), None),
                Some(p) => match spec_lookup(vfs, p) {
                    Some(content) => (
                        spec_text_response(200, spec_mime_of(p), content),
                        Some(spec_served(p, req)),
                    ),
                    None => if spec_is_dir(vfs, p) {
                        match self.index {
                            None => (spec_empty_response(404), None),
                            Some(idx) => if self.redirect_to_slash && !ends_with(
                                req.path,
                                "/".spec_bytes(),
                            ) {
                                (spec_redirect_response(req.path + "/".spec_bytes()), None)
                            } else {
                                let ip = p + "/".spec_bytes() + idx@;
                                match spec_lookup(vfs, ip) {
                                    Some(content) => (
                                        spec_text_response(200, spec_mime_of(ip), content),
                                        Some(spec_served(ip, req)),
                                    ),
                                    None => (spec_empty_response(404), None),
                                }
                            },
                        }
                    } else {
                        (spec_empty_response(404), None)
                    },
                },
            }
        }
    }

    /// Executable form of `FilesService::spec_handle`.
    pub fn call(&self, req: &RequestHead, vfs: &Vfs) -> (r: (Response, Option<ServedFile>))
        ensures
            r.0@ == self.spec_handle(req@, vfs@).0,
            served_view(r.1) == self.spec_handle(req@, vfs@).1,
    {
        if !is_get_or_head(req.method.as_slice()) {
            let body = copy_bytes("Request did not meet this resource's requirements.".as_bytes());
            return (text_response(405, "text/plain", body), None);
        }
        let p = match file_path(req.path.as_slice(), self.directory.as_slice()) {
            Some(p) => p,
            None => {
                return (empty_response(400), None);
            },
        };
        match vfs.lookup(p.as_slice()) {
            Some(content) => {
                let body = copy_bytes(content.as_slice());
                let mime = mime_of(p.as_slice());
                let served = self.served_for(p, req);
                (text_response_bytes(200, mime, body), Some(served))
            },
            None => {
                if vfs.is_dir(p.as_slice()) {
                    match &self.index {
                        None => (empty_response(404), None),
                        Some(idx) => {
                            if self.redirect_to_slash && !ends_with_exec(
                                req.path.as_slice(),
                                "/".as_bytes(),
                            ) {
                                let mut target = copy_bytes(req.path.as_slice());
                                push_all(&mut target, "/".as_bytes());
                                return (redirect_response(target), None);
                            }
                            let mut ip = p;
                            push_all(&mut ip, "/".as_bytes());
                            push_all(&mut ip, idx.as_slice());
                            match vfs.lookup(ip.as_slice()) {
                                Some(content) => {
                                    let body = copy_bytes(content.as_slice());
                                    let mime = mime_of(ip.as_slice());
                                    let served = self.served_for(ip, req);
                                    (text_response_bytes(200, mime, body), Some(served))
                                },
                                None => (empty_response(404), None),
                            }
                        },
                    }
                } else {
                    (empty_response(404), None)
                }
            },
        }
    }

    /// The notification for a file at `abs` served for `req`.
    fn served_for(&self, abs: Vec<u8>, req: &RequestHead) -> (r: ServedFile)
        ensures
            r@ == spec_served(abs@, req@),
    {
        let web_path = if req.path.len() == 0 {
            copy_bytes("/".as_bytes())
        } else {
            copy_bytes(req.path.as_slice())
        };
        let referer = match req.headers.get("referer") {
            Some(v) => Some(copy_bytes(v.as_slice())),
            None => None,
        };
        ServedFile { path: abs, web_path, referer }
    }
}

/// A request path whose normalization fails — in particular one whose
/// `..` segments would climb out of the directory root — is never taken
/// by a static route: its `check_multi` answers false whatever the mount,
/// the root and the file tree hold.
pub proof fn lemma_traversal_rejected(
    svc: FilesService,
    req: RequestHeadV,
    vfs: Seq<(Seq<u8>, Seq<u8>)>,
)
    requires
        spec_normalize(spec_split(req.path, 47)) is None,
    ensures
        !svc.spec_check(req, vfs),
{
}

/// A demonstration file handler that answers with its own configuration
/// instead of file contents.
pub struct Files {
    pub route: Vec<u8>,
    pub dir: Vec<u8>,
}

impl Files {
    /// A handler for `route` over `dir`.
    pub fn new(route: &str, dir: &str) -> (r: Files)
        ensures
            r.route@ == route.spec_bytes(),
            r.dir@ == dir.spec_bytes(),
    {
        Files { route: copy_bytes(route.as_bytes()), dir: copy_bytes(dir.as_bytes()) }
    }

    /// `Files::new`, boxed for a handler list.
    pub fn boxed(route: &str, dir: &str) -> (r: Box<Files>)
        ensures
            r.route@ == route.spec_bytes(),
            r.dir@ == dir.spec_bytes(),
    {
        Box::new(Self::new(route, dir))
    }

    /// Whether this handler takes the request: its configured route lies
    /// under the request path.
    pub open spec fn spec_check(self, req: RequestHeadV) -> bool {
        begins_with(self.route@, req.path)
    }

    /// Executable form of `Files::spec_check`.
    pub fn check_multi(&self, req: &RequestHead) -> (r: bool)
        ensures
            r == self.spec_check(req@),
    {
        begins_with_exec(self.route.as_slice(), req.path.as_slice())
    }

    /// What answering yields: its configuration, `route:dir`, as a plain
    /// 200 response.
    pub open spec fn spec_handle(self) -> ResponseV {
        let body = self.route@ + ":".spec_bytes() + self.dir@;
        ResponseV {
            head: crate::http::ResponseHeadV {
                status: 200,
                headers: Seq::empty(),
                body_size: crate::http::BodySize::Sized(body.len() as usize),
            },
            body,
        }
    }

    /// Executable form of `Files::spec_handle`.
    pub fn call(&self) -> (r: Response)
        ensures
            r@ == self.spec_handle(),
    {
        let mut body = copy_bytes(self.route.as_slice());
        push_all(&mut body, ":".as_bytes());
        push_all(&mut body, self.dir.as_slice());
        let r = Response {
            head: crate::http::ResponseHead {
                status: 200,
                headers: crate::http::HeaderMap::new(),
                body_size: crate::http::BodySize::Sized(body.len()),
            },
            body,
        };
        proof {
            assert(r@ =~~= self.spec_handle());
        }
        r
    }
}

} // verus!
