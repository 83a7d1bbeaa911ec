//! Plain-value model of HTTP message heads: a header multimap whose keys
//! compare case-insensitively while order and duplicates are preserved, and
//! the request and response heads the router and pipeline work on.

use vstd::prelude::*;

use crate::bytes::{
    bytes_eq, contains_exec, contains_seq, copy_bytes, eq_ignore_case, lower,
};
use vstd::string::StringSliceAdditionalSpecFns;

verus! {

/// One header line: a name and a value, both kept as the bytes that came
/// off the wire.
#[derive(Debug, PartialEq, Eq)]
pub struct Header {
    pub name: Vec<u8>,
    pub value: Vec<u8>,
}

impl View for Header {
    type V = (Seq<u8>, Seq<u8>);

    open spec fn view(&self) -> (Seq<u8>, Seq<u8>) {
        (self.name@, self.value@)
    }
}

/// The first value stored under `name`, comparing names without regard to
/// ASCII case.
pub open spec fn spec_get(m: Seq<(Seq<u8>, Seq<u8>)>, name: Seq<u8>) -> Option<Seq<u8>>
    decreases m.len(),
{
    if m.len() == 0 {
        None
    } else if lower(m[0].0) == lower(name) {
        Some(m[0].1)
    } else {
        spec_get(m.skip(1), name)
    }
}

/// `m` with every entry named `name` (in any ASCII case) removed.
pub open spec fn spec_remove(m: Seq<(Seq<u8>, Seq<u8>)>, name: Seq<u8>) -> Seq<(Seq<u8>, Seq<u8>)>
    decreases m.len(),
{
    if m.len() == 0 {
        m
    } else if lower(m[0].0) == lower(name) {
        spec_remove(m.skip(1), name)
    } else {
        seq![m[0]] + spec_remove(m.skip(1), name)
    }
}

/// The value under `name` exists and contains `needle`.
pub open spec fn header_value_contains(
    m: Seq<(Seq<u8>, Seq<u8>)>,
    name: Seq<u8>,
    needle: Seq<u8>,
) -> bool {
    match spec_get(m, name) {
        Some(v) => contains_seq(v, needle),
        None => false,
    }
}

/// An ordered header multimap: duplicate names are allowed, insertion
/// order is kept, and lookups ignore ASCII case of the name.
#[derive(Debug, PartialEq, Eq)]
pub struct HeaderMap {
    pub entries: Vec<Header>,
}

impl View for HeaderMap {
    type V = Seq<(Seq<u8>, Seq<u8>)>;

    open spec fn view(&self) -> Seq<(Seq<u8>, Seq<u8>)> {
        self.entries@.map_values(|h: Header| h@)
    }
}

impl HeaderMap {
    /// A map with no entries.
    pub fn new() -> (r: HeaderMap)
        ensures
            r@ == Seq::<(Seq<u8>, Seq<u8>)>::empty(),
    {
        let m = HeaderMap { entries: Vec::new() };
        proof {
            assert(m@ =~= Seq::<(Seq<u8>, Seq<u8>)>::empty());
        }
        m
    }

    /// Append an entry, keeping whatever was already there.
    pub fn push_bytes(&mut self, name: Vec<u8>, value: Vec<u8>)
        ensures
            final(self)@ == old(self)@.push((name@, value@)),
    {
        let ghost before = self@;
        self.entries.push(Header { name, value });
        proof {
            assert(self@ =~= before.push((name@, value@)));
        }
    }

    /// Append an entry given as string literals.
    pub fn push(&mut self, name: &str, value: &str)
        ensures
            final(self)@ == old(self)@.push((name.spec_bytes(), value.spec_bytes())),
    {
        let n = copy_bytes(name.as_bytes());
        let v = copy_bytes(value.as_bytes());
        self.push_bytes(n, v);
    }

    /// The first value stored under `name`, ignoring ASCII case.
    pub fn get_bytes(&self, name: &[u8]) -> (r: Option<&Vec<u8>>)
        ensures
            match r {
                Some(v) => spec_get(self@, name@) == Some(v@),
                None => spec_get(self@, name@) is None,
            },
    {
        let mut i: usize = 0;
        proof {
            assert(self@.skip(0) =~= self@);
        }
        while i < self.entries.len()
            invariant
                i <= self.entries.len(),
                spec_get(self@, name@) == spec_get(self@.skip(i as int), name@),
            decreases self.entries.len() - i,
        {
            let ghost rest = self@.skip(i as int);
            proof {
                assert(rest[0] == self@[i as int]);
                assert(rest.skip(1) =~= self@.skip(i + 1));
            }
            if eq_ignore_case(self.entries[i].name.as_slice(), name) {
                return Some(&self.entries[i].value);
            }
            i += 1;
        }
        proof {
            assert(self@.skip(self@.len() as int) =~= Seq::<(Seq<u8>, Seq<u8>)>::empty());
        }
        None
    }

    /// The first value stored under a literal name, ignoring ASCII case.
    pub fn get(&self, name: &str) -> (r: Option<&Vec<u8>>)
        ensures
            match r {
                Some(v) => spec_get(self@, name.spec_bytes()) == Some(v@),
                None => spec_get(self@, name.spec_bytes()) is None,
            },
    {
        self.get_bytes(name.as_bytes())
    }

    /// Whether any entry is stored under `name`, ignoring ASCII case.
    pub fn contains_key(&self, name: &str) -> (r: bool)
        ensures
            r == (spec_get(self@, name.spec_bytes()) is Some),
    {
        self.get(name).is_some()
    }

    /// The value under `name` exists and contains `needle` somewhere.
    pub fn value_contains(&self, name: &str, needle: &str) -> (r: bool)
        ensures
            r == header_value_contains(self@, name.spec_bytes(), needle.spec_bytes()),
    {
        match self.get(name) {
            Some(v) => contains_exec(v.as_slice(), needle.as_bytes()),
            None => false,
        }
    }

    /// Remove every entry stored under `name`, ignoring ASCII case.
    pub fn remove(&mut self, name: &[u8])
        ensures
            final(self)@ == spec_remove(old(self)@, name@),
    {
        let mut out: Vec<Header> = Vec::new();
        let mut i: usize = 0;
        let ghost whole = self@;
        proof {
            assert(whole.skip(0) =~= whole);
            assert(out@.map_values(|h: Header| h@) =~= Seq::<(Seq<u8>, Seq<u8>)>::empty());
        }
        while i < self.entries.len()
            invariant
                i <= self.entries.len(),
                whole == self@,
                out@.map_values(|h: Header| h@) + spec_remove(whole.skip(i as int), name@)
                    == spec_remove(whole, name@),
            decreases self.entries.len() - i,
        {
            let ghost rest = whole.skip(i as int);
            let ghost out_before = out@.map_values(|h: Header| h@);
            proof {
                assert(rest[0] == whole[i as int]);
                assert(rest.skip(1) =~= whole.skip(i + 1));
            }
            if !eq_ignore_case(self.entries[i].name.as_slice(), name) {
                let n = copy_bytes(self.entries[i].name.as_slice());
                let v = copy_bytes(self.entries[i].value.as_slice());
                out.push(Header { name: n, value: v });
                proof {
                    assert(out@.map_values(|h: Header| h@) =~= out_before.push(
                        whole[i as int],
                    ));
                    assert(out_before.push(whole[i as int]) + spec_remove(
                        whole.skip(i + 1),
                        name@,
                    ) =~= out_before + (seq![rest[0]] + spec_remove(rest.skip(1), name@)));
                }
            }
            i += 1;
        }
        proof {
            assert(whole.skip(whole.len() as int) =~= Seq::<(Seq<u8>, Seq<u8>)>::empty());
            assert(out@.map_values(|h: Header| h@) + Seq::<(Seq<u8>, Seq<u8>)>::empty()
                =~= out@.map_values(|h: Header| h@));
        }
        self.entries = out;
    }

    /// An entry-for-entry copy of the map.
    pub fn duplicate(&self) -> (r: HeaderMap)
        ensures
            r@ == self@,
    {
        let mut out = HeaderMap::new();
        let mut i: usize = 0;
        proof {
            assert(self@.take(0) =~= Seq::<(Seq<u8>, Seq<u8>)>::empty());
        }
        while i < self.entries.len()
            invariant
                i <= self.entries.len(),
                out@ == self@.take(i as int),
            decreases self.entries.len() - i,
        {
            let n = copy_bytes(self.entries[i].name.as_slice());
            let v = copy_bytes(self.entries[i].value.as_slice());
            out.push_bytes(n, v);
            proof {
                assert(self@.take(i as int).push(self@[i as int]) =~= self@.take(i + 1));
            }
            i += 1;
        }
        proof {
            assert(self@.take(self@.len() as int) =~= self@);
        }
        out
    }

    /// Replace whatever is stored under `name` with a single entry.
    pub fn set(&mut self, name: &str, value: Vec<u8>)
        ensures
            final(self)@ == spec_remove(old(self)@, name.spec_bytes()).push(
                (name.spec_bytes(), value@),
            ),
    {
        self.remove(name.as_bytes());
        let n = copy_bytes(name.as_bytes());
        self.push_bytes(n, value);
    }
}

/// What a response head declares about the size of its body.
#[derive(Clone, Copy, PartialEq, Eq, Structural, Debug)]
pub enum BodySize {
    /// The byte count is known up front.
    Sized(usize),
    /// The body streams until the inner source signals its end.
    Stream,
}

/// Everything known about a request before its body: method, path, query
/// string and headers. Immutable once constructed.
#[derive(Debug, PartialEq, Eq)]
pub struct RequestHead {
    pub method: Vec<u8>,
    pub path: Vec<u8>,
    pub query: Option<Vec<u8>>,
    pub headers: HeaderMap,
}

/// Spec-level value of a `RequestHead`.
#[verifier::ext_equal]
pub struct RequestHeadV {
    pub method: Seq<u8>,
    pub path: Seq<u8>,
    pub query: Option<Seq<u8>>,
    pub headers: Seq<(Seq<u8>, Seq<u8>)>,
}

impl View for RequestHead {
    type V = RequestHeadV;

    open spec fn view(&self) -> RequestHeadV {
        RequestHeadV {
            method: self.method@,
            path: self.path@,
            query: match self.query {
                Some(q) => Some(q@),
                None => None,
            },
            headers: self.headers@,
        }
    }
}

impl RequestHead {
    /// A request head with no query string and no headers.
    pub fn new(method: &str, path: &str) -> (r: RequestHead)
        ensures
            r@.method == method.spec_bytes(),
            r@.path == path.spec_bytes(),
            r@.query is None,
            r@.headers == Seq::<(Seq<u8>, Seq<u8>)>::empty(),
    {
        RequestHead {
            method: copy_bytes(method.as_bytes()),
            path: copy_bytes(path.as_bytes()),
            query: None,
            headers: HeaderMap::new(),
        }
    }
}

/// Everything known about a response before its body: status, headers and
/// the declared body size.
#[derive(Debug, PartialEq, Eq)]
pub struct ResponseHead {
    pub status: u16,
    pub headers: HeaderMap,
    pub body_size: BodySize,
}

/// Spec-level value of a `ResponseHead`.
#[verifier::ext_equal]
pub struct ResponseHeadV {
    pub status: u16,
    pub headers: Seq<(Seq<u8>, Seq<u8>)>,
    pub body_size: BodySize,
}

impl View for ResponseHead {
    type V = ResponseHeadV;

    open spec fn view(&self) -> ResponseHeadV {
        ResponseHeadV { status: self.status, headers: self.headers@, body_size: self.body_size }
    }
}

impl ResponseHead {
    /// A response head with the given status, no headers, and a sized body
    /// of zero bytes.
    pub fn new(status: u16) -> (r: ResponseHead)
        ensures
            r@.status == status,
            r@.headers == Seq::<(Seq<u8>, Seq<u8>)>::empty(),
            r@.body_size == BodySize::Sized(0usize),
    {
        ResponseHead { status, headers: HeaderMap::new(), body_size: BodySize::Sized(0) }
    }
}

/// A complete response: its head and the whole body.
#[derive(Debug, PartialEq, Eq)]
pub struct Response {
    pub head: ResponseHead,
    pub body: Vec<u8>,
}

/// Spec-level value of a `Response`.
#[verifier::ext_equal]
pub struct ResponseV {
    pub head: ResponseHeadV,
    pub body: Seq<u8>,
}

impl View for Response {
    type V = ResponseV;

    open spec fn view(&self) -> ResponseV {
        ResponseV { head: self.head@, body: self.body@ }
    }
}

/// A response carrying one `content-type` header and a sized body.
pub open spec fn spec_text_response(status: u16, ct: Seq<u8>, body: Seq<u8>) -> ResponseV {
    ResponseV {
        head: ResponseHeadV {
            status,
            headers: seq![("content-type".spec_bytes(), ct)],
            body_size: BodySize::Sized(body.len() as usize),
        },
        body,
    }
}

/// A response with no headers and an empty body.
pub open spec fn spec_empty_response(status: u16) -> ResponseV {
    ResponseV {
        head: ResponseHeadV {
            status,
            headers: Seq::empty(),
            body_size: BodySize::Sized(0usize),
        },
        body: Seq::empty(),
    }
}

/// A redirect: status 302 with a `location` header and an empty body.
pub open spec fn spec_redirect_response(location: Seq<u8>) -> ResponseV {
    ResponseV {
        head: ResponseHeadV {
            status: 302,
            headers: seq![("location".spec_bytes(), location)],
            body_size: BodySize::Sized(0usize),
        },
        body: Seq::empty(),
    }
}

/// Executable form of `spec_text_response`.
pub fn text_response(status: u16, ct: &str, body: Vec<u8>) -> (r: Response)
    ensures
        r@ == spec_text_response(status, ct.spec_bytes(), body@),
{
    let mut headers = HeaderMap::new();
    headers.push("content-type", ct);
    let size = BodySize::Sized(body.len());
    let r = Response { head: ResponseHead { status, headers, body_size: size }, body };
    proof {
        assert(r@ =~~= spec_text_response(status, ct.spec_bytes(), r.body@));
    }
    r
}

/// `spec_text_response` with a byte-vector content type.
pub fn text_response_bytes(status: u16, ct: Vec<u8>, body: Vec<u8>) -> (r: Response)
    ensures
        r@ == spec_text_response(status, ct@, body@),
{
    let mut headers = HeaderMap::new();
    let name = copy_bytes("content-type".as_bytes());
    headers.push_bytes(name, ct);
    let size = BodySize::Sized(body.len());
    let r = Response { head: ResponseHead { status, headers, body_size: size }, body };
    proof {
        assert(r@ =~~= spec_text_response(status, r@.head.headers[0].1, r.body@));
    }
    r
}

/// Executable form of `spec_empty_response`.
pub fn empty_response(status: u16) -> (r: Response)
    ensures
        r@ == spec_empty_response(status),
{
    let r = Response { head: ResponseHead::new(status), body: Vec::new() };
    proof {
        assert(r@ =~~= spec_empty_response(status));
    }
    r
}

/// Executable form of `spec_redirect_response`.
pub fn redirect_response(location: Vec<u8>) -> (r: Response)
    ensures
        r@ == spec_redirect_response(location@),
{
    let mut headers = HeaderMap::new();
    let name = copy_bytes("location".as_bytes());
    headers.push_bytes(name, location);
    let r = Response {
        head: ResponseHead { status: 302, headers, body_size: BodySize::Sized(0) },
        body: Vec::new(),
    };
    proof {
        assert(r@ =~~= spec_redirect_response(r@.head.headers[0].1));
    }
    r
}

/// The request method is GET or HEAD, the two methods static file serving
/// answers.
pub open spec fn spec_is_get_or_head(m: Seq<u8>) -> bool {
    m == "GET".spec_bytes() || m == "HEAD".spec_bytes()
}

/// Executable form of `spec_is_get_or_head`.
pub fn is_get_or_head(m: &[u8]) -> (r: bool)
    ensures
        r == spec_is_get_or_head(m@),
{
    bytes_eq(m, "GET".as_bytes()) || bytes_eq(m, "HEAD".as_bytes())
}

} // verus!
