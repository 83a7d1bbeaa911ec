//! Rewrite rules: a guard over the request and response heads deciding
//! whether a rule applies, plus a pure body transform. The configured rule
//! list is fixed at startup; matching rules are applied to a buffered body
//! in registration order.

use vstd::prelude::*;

use crate::bytes::{begins_with, begins_with_exec, replace_bytes, spec_replace};
use crate::http::{header_value_contains, RequestHead, RequestHeadV, ResponseHead, ResponseHeadV};
use crate::urlparts::{spec_origin, UrlParts};
use vstd::string::StringSliceAdditionalSpecFns;

verus! {

/// The request asks for HTML.
pub open spec fn spec_accepts_html(req: RequestHeadV) -> bool {
    header_value_contains(req.headers, "accept".spec_bytes(), "text/html".spec_bytes())
}

/// The response carries HTML.
pub open spec fn spec_serves_html(res: ResponseHeadV) -> bool {
    header_value_contains(res.headers, "content-type".spec_bytes(), "text/html".spec_bytes())
}

/// Executable form of `spec_accepts_html`.
pub fn accepts_html(req: &RequestHead) -> (r: bool)
    ensures
        r == spec_accepts_html(req@),
{
    req.headers.value_contains("accept", "text/html")
}

/// Executable form of `spec_serves_html`.
pub fn serves_html(res: &ResponseHead) -> (r: bool)
    ensures
        r == spec_serves_html(res@),
{
    res.headers.value_contains("content-type", "text/html")
}

/// Injects the live-reload client script just before `</body>` in every
/// HTML response.
pub struct Script;

impl Script {
    /// What `</body>` is replaced with: the client script tag followed by
    /// the closing tag itself.
    pub open spec fn spec_snippet() -> Seq<u8> {
        "<script src=\"/__bs3/client/index.js\"></script></body>".spec_bytes()
    }

    /// The transformed body: every `</body>` gains the client script tag.
    pub open spec fn spec_process(s: Seq<u8>) -> Seq<u8> {
        spec_replace(s, "</body>".spec_bytes(), Self::spec_snippet())
    }

    /// Applies when the request asks for HTML and the response carries it.
    pub open spec fn spec_guard(req: RequestHeadV, res: ResponseHeadV) -> bool {
        spec_accepts_html(req) && spec_serves_html(res)
    }

    /// Executable form of `Script::spec_process`.
    pub fn process_str(&self, input: &[u8]) -> (r: Vec<u8>)
        ensures
            r@ == Self::spec_process(input@),
    {
        replace_bytes(
            input,
            "</body>".as_bytes(),
            "<script src=\"/__bs3/client/index.js\"></script></body>".as_bytes(),
        )
    }

    /// Executable form of `Script::spec_guard`.
    pub fn guard(&self, req: &RequestHead, res: &ResponseHead) -> (r: bool)
        ensures
            r == Self::spec_guard(req@, res@),
    {
        accepts_html(req) && serves_html(res)
    }

    /// The rule's name, for diagnostics.
    pub fn name(&self) -> &'static str {
        "bs3 script tag"
    }
}

/// Marks chunked test pages: rewrites `Chunked` to `[Chunked]` on paths
/// under `/chunked`.
pub struct Css;

impl Css {
    /// The transformed body: every `Chunked` becomes `[Chunked]`.
    pub open spec fn spec_process(s: Seq<u8>) -> Seq<u8> {
        spec_replace(s, "Chunked".spec_bytes(), "[Chunked]".spec_bytes())
    }

    /// Applies when the request path lies under `/chunked`.
    pub open spec fn spec_guard(req: RequestHeadV, res: ResponseHeadV) -> bool {
        begins_with(req.path, "/chunked".spec_bytes())
    }

    /// Executable form of `Css::spec_process`.
    pub fn process_str(&self, input: &[u8]) -> (r: Vec<u8>)
        ensures
            r@ == Self::spec_process(input@),
    {
        replace_bytes(input, "Chunked".as_bytes(), "[Chunked]".as_bytes())
    }

    /// Executable form of `Css::spec_guard`.
    pub fn guard(&self, req: &RequestHead, res: &ResponseHead) -> (r: bool)
        ensures
            r == Self::spec_guard(req@, res@),
    {
        begins_with_exec(req.path.as_slice(), "/chunked".as_bytes())
    }

    /// The rule's name, for diagnostics.
    pub fn name(&self) -> &'static str {
        "Chunked test"
    }
}

/// Rewrites absolute links in proxied HTML: occurrences of the upstream
/// origin are replaced by the local server's origin, so links keep
/// pointing at the proxy.
pub struct ProxyResp {
    pub target_url: UrlParts,
    pub local_url: UrlParts,
}

impl ProxyResp {
    /// The local origin written with its port, `scheme://host:port`; a
    /// local URL without a port gives the bare origin.
    pub open spec fn spec_local_origin(&self) -> Seq<u8> {
        spec_origin(self.local_url@) + match self.local_url@.port {
            Some(p) => ":".spec_bytes() + crate::bytes::dec_digits(p as nat),
            None => Seq::<u8>::empty(),
        }
    }

    /// The transformed body: every occurrence of the upstream origin
    /// becomes the local origin.
    pub open spec fn spec_process(&self, s: Seq<u8>) -> Seq<u8> {
        spec_replace(s, spec_origin(self.target_url@), self.spec_local_origin())
    }

    /// Applies when the request asks for HTML and the response carries it.
    pub open spec fn spec_guard(req: RequestHeadV, res: ResponseHeadV) -> bool {
        spec_accepts_html(req) && spec_serves_html(res)
    }

    /// Executable form of `ProxyResp::spec_process`.
    pub fn process_str(&self, input: &[u8]) -> (r: Vec<u8>)
        ensures
            r@ == self.spec_process(input@),
    {
        let needle = self.target_url.origin();
        let mut local = self.local_url.origin();
        match self.local_url.port {
            Some(p) => {
                crate::bytes::push_all(&mut local, ":".as_bytes());
                let digits = crate::bytes::u16_to_dec(p);
                crate::bytes::push_all(&mut local, digits.as_slice());
            },
            None => (),
        }
        proof {
            assert(local@ =~= self.spec_local_origin());
        }
        replace_bytes(input, needle.as_slice(), local.as_slice())
    }

    /// Executable form of `ProxyResp::spec_guard`.
    pub fn guard(&self, req: &RequestHead, res: &ResponseHead) -> (r: bool)
        ensures
            r == Self::spec_guard(req@, res@),
    {
        accepts_html(req) && serves_html(res)
    }

    /// The rule's name, for diagnostics.
    pub fn name(&self) -> &'static str {
        "proxy resp mod"
    }
}

/// One configured rewrite rule: a guard plus a pure body transform,
/// dispatched over the closed set of rules this server ships.
pub enum RewriteRule {
    Script(Script),
    Css(Css),
    Proxy(ProxyResp),
}

impl RewriteRule {
    /// The rule's guard over the two heads.
    pub open spec fn spec_guard(self, req: RequestHeadV, res: ResponseHeadV) -> bool {
        match self {
            RewriteRule::Script(_) => Script::spec_guard(req, res),
            RewriteRule::Css(_) => Css::spec_guard(req, res),
            RewriteRule::Proxy(_) => ProxyResp::spec_guard(req, res),
        }
    }

    /// The rule's body transform.
    pub open spec fn spec_process(self, s: Seq<u8>) -> Seq<u8> {
        match self {
            RewriteRule::Script(_) => Script::spec_process(s),
            RewriteRule::Css(_) => Css::spec_process(s),
            RewriteRule::Proxy(p) => p.spec_process(s),
        }
    }

    /// Executable form of `RewriteRule::spec_guard`.
    pub fn guard(&self, req: &RequestHead, res: &ResponseHead) -> (r: bool)
        ensures
            r == self.spec_guard(req@, res@),
    {
        match self {
            RewriteRule::Script(s) => s.guard(req, res),
            RewriteRule::Css(c) => c.guard(req, res),
            RewriteRule::Proxy(p) => p.guard(req, res),
        }
    }

    /// Executable form of `RewriteRule::spec_process`.
    pub fn process_str(&self, input: &[u8]) -> (r: Vec<u8>)
        ensures
            r@ == self.spec_process(input@),
    {
        match self {
            RewriteRule::Script(s) => s.process_str(input),
            RewriteRule::Css(c) => c.process_str(input),
            RewriteRule::Proxy(p) => p.process_str(input),
        }
    }

    /// The rule's name, for diagnostics.
    pub fn name(&self) -> &'static str {
        match self {
            RewriteRule::Script(s) => s.name(),
            RewriteRule::Css(c) => c.name(),
            RewriteRule::Proxy(p) => p.name(),
        }
    }
}

/// The configured rule list, shared read-only by every response.
pub struct RespModData {
    pub items: Vec<RewriteRule>,
}

/// The indices, in registration order, of the rules whose guard accepts
/// the two heads.
pub open spec fn spec_indexes(
    items: Seq<RewriteRule>,
    req: RequestHeadV,
    res: ResponseHeadV,
) -> Seq<usize>
    decreases items.len(),
{
    if items.len() == 0 {
        Seq::empty()
    } else {
        let prefix = spec_indexes(items.drop_last(), req, res);
        if items.last().spec_guard(req, res) {
            prefix.push((items.len() - 1) as usize)
        } else {
            prefix
        }
    }
}

/// The matched rules applied in index order, each consuming the previous
/// rule's output.
pub open spec fn spec_apply(items: Seq<RewriteRule>, idxs: Seq<usize>, s: Seq<u8>) -> Seq<u8>
    decreases idxs.len(),
{
    if idxs.len() == 0 {
        s
    } else {
        spec_apply(items, idxs.skip(1), items[idxs[0] as int].spec_process(s))
    }
}

impl View for RespModData {
    type V = Seq<RewriteRule>;

    open spec fn view(&self) -> Seq<RewriteRule> {
        self.items@
    }
}

impl RespModData {
    /// The indices of the rules that want to edit this response, in
    /// registration order.
    pub fn indexes(&self, req: &RequestHead, res: &ResponseHead) -> (r: Vec<usize>)
        ensures
            r@ == spec_indexes(self@, req@, res@),
            forall|k: int| 0 <= k < r@.len() ==> r@[k] < self@.len(),
    {
        let mut out: Vec<usize> = Vec::new();
        let mut i: usize = 0;
        proof {
            assert(self@.take(0) =~= Seq::<RewriteRule>::empty());
        }
        while i < self.items.len()
            invariant
                i <= self.items.len(),
                out@ == spec_indexes(self@.take(i as int), req@, res@),
                forall|k: int| 0 <= k < out@.len() ==> out@[k] < i,
            decreases self.items.len() - i,
        {
            proof {
                assert(self@.take(i + 1).drop_last() =~= self@.take(i as int));
                assert(self@.take(i + 1).last() == self@[i as int]);
            }
            if self.items[i].guard(req, res) {
                out.push(i);
            }
            i += 1;
        }
        proof {
            assert(self@.take(self@.len() as int) =~= self@);
        }
        out
    }

    /// All the rules named by `indexes` applied to `input`, in order.
    pub fn process_str(&self, input: Vec<u8>, indexes: &Vec<usize>) -> (r: Vec<u8>)
        requires
            forall|k: int| 0 <= k < indexes@.len() ==> indexes@[k] < self@.len(),
        ensures
            r@ == spec_apply(self@, indexes@, input@),
    {
        let mut acc = input;
        let mut k: usize = 0;
        proof {
            assert(indexes@.skip(0) =~= indexes@);
        }
        while k < indexes.len()
            invariant
                k <= indexes.len(),
                forall|j: int| 0 <= j < indexes@.len() ==> indexes@[j] < self@.len(),
                spec_apply(self@, indexes@.skip(k as int), acc@) == spec_apply(
                    self@,
                    indexes@,
                    input@,
                ),
            decreases indexes.len() - k,
        {
            let ghost rest = indexes@.skip(k as int);
            proof {
                assert(rest[0] == indexes@[k as int]);
                assert(rest.skip(1) =~= indexes@.skip(k + 1));
            }
            let idx = indexes[k];
            acc = self.items[idx].process_str(acc.as_slice());
            k += 1;
        }
        proof {
            assert(indexes@.skip(indexes@.len() as int) =~= Seq::<usize>::empty());
        }
        acc
    }
}

/// Applying one run of rules after another is the same as applying the
/// two runs joined: transforms compose, each consuming the previous
/// output.
pub proof fn lemma_apply_append(items: Seq<RewriteRule>, a: Seq<usize>, b: Seq<usize>, s: Seq<u8>)
    ensures
        spec_apply(items, a + b, s) == spec_apply(items, b, spec_apply(items, a, s)),
    decreases a.len(),
{
    if a.len() == 0 {
        assert(a + b =~= b);
    } else {
        assert((a + b)[0] == a[0]);
        assert((a + b).skip(1) =~= a.skip(1) + b);
        lemma_apply_append(items, a.skip(1), b, items[a[0] as int].spec_process(s));
    }
}

/// With two rules both matching, the final body is the second rule's
/// transform of the first rule's output: composition in registration
/// order, never the reverse and never a merge.
pub proof fn lemma_apply_two(items: Seq<RewriteRule>, i: usize, j: usize, s: Seq<u8>)
    ensures
        spec_apply(items, seq![i, j], s) == items[j as int].spec_process(
            items[i as int].spec_process(s),
        ),
{
    let idxs = seq![i, j];
    let once = items[i as int].spec_process(s);
    assert(idxs[0] == i);
    assert(idxs.skip(1) =~= seq![j]);
    assert(spec_apply(items, idxs, s) == spec_apply(items, seq![j], once));
    assert(seq![j][0] == j);
    assert(seq![j].skip(1) =~= Seq::<usize>::empty());
    assert(spec_apply(items, seq![j], once) == spec_apply(
        items,
        Seq::<usize>::empty(),
        items[j as int].spec_process(once),
    ));
}

} // verus!
