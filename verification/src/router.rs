//! The capability router: an ordered list of handlers, each able to say
//! whether it takes a request; a request is dispatched to the first
//! handler that does, and no later handler is consulted. The order is the
//! caller's: a specific static mount registered early shadows a catch-all
//! proxy registered later, and a terminal not-found handler at the end
//! makes dispatch total.

use vstd::prelude::*;

use crate::http::{empty_response, spec_empty_response, RequestHead, RequestHeadV, Response,
    ResponseV};
use crate::not_found::NotFound;
use crate::proxy::{spec_forward, ProxyService, UpstreamRequest, UpstreamRequestV};
use crate::static_files::{served_view, Files, FilesService, ServedFile, ServedFileV};
use crate::vfs::Vfs;

verus! {

/// What a handler decides for a request: a finished response (with the
/// file-served notification, where a file went out), or an upstream
/// request for the transport to forward.
pub enum Action {
    Respond(Response, Option<ServedFile>),
    Forward(UpstreamRequest),
}

/// Spec-level value of an `Action`.
#[verifier::ext_equal]
pub enum ActionV {
    Respond(ResponseV, Option<ServedFileV>),
    Forward(UpstreamRequestV),
}

impl View for Action {
    type V = ActionV;

    open spec fn view(&self) -> ActionV {
        match self {
            Action::Respond(r, s) => ActionV::Respond(r@, served_view(*s)),
            Action::Forward(u) => ActionV::Forward(u@),
        }
    }
}

/// One registered handler.
pub enum Handler {
    Files(Files),
    Static(FilesService),
    Proxy(ProxyService),
    NotFound(NotFound),
}

impl Handler {
    /// A proxy handler must hold at least one target; everything else is
    /// well-formed as it stands.
    pub open spec fn wf(self) -> bool {
        match self {
            Handler::Proxy(p) => p.targets@.len() > 0,
            _ => true,
        }
    }

    /// Whether this handler takes the request. The not-found handler
    /// takes everything.
    pub open spec fn spec_check(self, req: RequestHeadV, vfs: Seq<(Seq<u8>, Seq<u8>)>) -> bool {
        match self {
            Handler::Files(f) => f.spec_check(req),
            Handler::Static(s) => s.spec_check(req, vfs),
            Handler::Proxy(p) => p.spec_check(req),
            Handler::NotFound(_) => true,
        }
    }

    /// Executable form of `Handler::spec_check`.
    pub fn check_multi(&self, req: &RequestHead, vfs: &Vfs) -> (r: bool)
        ensures
            r == self.spec_check(req@, vfs@),
    {
        match self {
            Handler::Files(f) => f.check_multi(req),
            Handler::Static(s) => s.check_multi(req, vfs),
            Handler::Proxy(p) => p.check_multi(req),
            Handler::NotFound(_) => true,
        }
    }

    /// What this handler decides for the request.
    pub open spec fn spec_handle(self, req: RequestHeadV, vfs: Seq<(Seq<u8>, Seq<u8>)>) -> ActionV {
        match self {
            Handler::Files(f) => ActionV::Respond(f.spec_handle(), None),
            Handler::Static(s) => {
                let pair = s.spec_handle(req, vfs);
                ActionV::Respond(pair.0, pair.1)
            },
            Handler::Proxy(p) => ActionV::Forward(spec_forward(p.targets@[0]@.target, req)),
            Handler::NotFound(nf) => ActionV::Respond(nf.spec_handle(), None),
        }
    }

    /// Executable form of `Handler::spec_handle`.
    pub fn handle(&self, req: &RequestHead, vfs: &Vfs) -> (r: Action)
        requires
            self.wf(),
        ensures
            r@ == self.spec_handle(req@, vfs@),
    {
        match self {
            Handler::Files(f) => Action::Respond(f.call(), None),
            Handler::Static(s) => {
                let (resp, served) = s.call(req, vfs);
                Action::Respond(resp, served)
            },
            Handler::Proxy(p) => Action::Forward(p.call(req)),
            Handler::NotFound(nf) => Action::Respond(nf.call(), None),
        }
    }
}

/// What dispatching over an ordered handler list yields: the first
/// handler whose guard takes the request decides, and nothing is
/// consulted after it; no match at all yields nothing.
pub open spec fn spec_dispatch(
    items: Seq<Handler>,
    req: RequestHeadV,
    vfs: Seq<(Seq<u8>, Seq<u8>)>,
) -> Option<ActionV>
    decreases items.len(),
{
    if items.len() == 0 {
        None
    } else if items[0].spec_check(req, vfs) {
        Some(items[0].spec_handle(req, vfs))
    } else {
        spec_dispatch(items.skip(1), req, vfs)
    }
}

/// The router: the ordered handler list, built once at startup and
/// shared read-only by every request.
pub struct MultiService {
    pub items: Vec<Handler>,
}

impl MultiService {
    /// Every handler in the list is well-formed.
    pub open spec fn wf(self) -> bool {
        forall|k: int| 0 <= k < self.items@.len() ==> (#[trigger] self.items@[k]).wf()
    }

    /// Dispatch a request to the first handler that takes it
    /// (executable form of `spec_dispatch`).
    pub fn dispatch(&self, req: &RequestHead, vfs: &Vfs) -> (r: Option<Action>)
        requires
            self.wf(),
        ensures
            match r {
                Some(a) => spec_dispatch(self.items@, req@, vfs@) == Some(a@),
                None => spec_dispatch(self.items@, req@, vfs@) is None,
            },
    {
        let mut i: usize = 0;
        proof {
            assert(self.items@.skip(0) =~= self.items@);
        }
        while i < self.items.len()
            invariant
                i <= self.items.len(),
                self.wf(),
                spec_dispatch(self.items@, req@, vfs@) == spec_dispatch(
                    self.items@.skip(i as int),
                    req@,
                    vfs@,
                ),
            decreases self.items.len() - i,
        {
            let ghost rest = self.items@.skip(i as int);
            proof {
                assert(rest[0] == self.items@[i as int]);
                assert(rest.skip(1) =~= self.items@.skip(i + 1));
            }
            if self.items[i].check_multi(req, vfs) {
                let a = self.items[i].handle(req, vfs);
                return Some(a);
            }
            i += 1;
        }
        proof {
            assert(self.items@.skip(self.items@.len() as int) =~= Seq::<Handler>::empty());
        }
        None
    }

    /// Dispatch as the server runs it: a request no handler takes gets a
    /// bare 404, exactly as an empty handler list would.
    pub fn call(&self, req: &RequestHead, vfs: &Vfs) -> (r: Action)
        requires
            self.wf(),
        ensures
            match spec_dispatch(self.items@, req@, vfs@) {
                Some(a) => r@ == a,
                None => r@ == ActionV::Respond(spec_empty_response(404), None),
            },
    {
        match self.dispatch(req, vfs) {
            Some(a) => a,
            None => Action::Respond(empty_response(404), None),
        }
    }
}

/// Registration order decides: when two handlers both take a request,
/// the one registered earlier serves it, whatever follows them; swapping
/// the two swaps which one serves.
pub proof fn lemma_order_sensitivity(
    a: Handler,
    b: Handler,
    rest: Seq<Handler>,
    req: RequestHeadV,
    vfs: Seq<(Seq<u8>, Seq<u8>)>,
)
    requires
        a.spec_check(req, vfs),
        b.spec_check(req, vfs),
    ensures
        spec_dispatch(seq![a, b] + rest, req, vfs) == Some(a.spec_handle(req, vfs)),
        spec_dispatch(seq![b, a] + rest, req, vfs) == Some(b.spec_handle(req, vfs)),
{
    assert((seq![a, b] + rest)[0] == a);
    assert((seq![b, a] + rest)[0] == b);
}

/// First match wins: a handler that takes the request, with nothing
/// before it taking it, is the one that decides.
pub proof fn lemma_dispatch_first_match(
    items: Seq<Handler>,
    i: int,
    req: RequestHeadV,
    vfs: Seq<(Seq<u8>, Seq<u8>)>,
)
    requires
        0 <= i < items.len(),
        forall|j: int| 0 <= j < i ==> !(#[trigger] items[j]).spec_check(req, vfs),
        items[i].spec_check(req, vfs),
    ensures
        spec_dispatch(items, req, vfs) == Some(items[i].spec_handle(req, vfs)),
    decreases i,
{
    if i == 0 {
    } else {
        assert(!items[0].spec_check(req, vfs));
        assert(items.skip(1)[i - 1] == items[i]);
        assert(forall|j: int| 0 <= j < i - 1 ==> items.skip(1)[j] == items[j + 1]);
        lemma_dispatch_first_match(items.skip(1), i - 1, req, vfs);
    }
}

/// A catch-all proxy takes every path that no earlier handler claims:
/// with all handlers before it declining the request, dispatch forwards
/// through it, whatever the request path was.
pub proof fn lemma_catch_all_takes_unclaimed(
    items: Seq<Handler>,
    i: int,
    k: int,
    req: RequestHeadV,
    vfs: Seq<(Seq<u8>, Seq<u8>)>,
)
    requires
        0 <= i < items.len(),
        forall|j: int| 0 <= j < i ==> !(#[trigger] items[j]).spec_check(req, vfs),
        items[i] matches Handler::Proxy(p) && 0 <= k < p.targets@.len() && p.targets@[k]@.paths.len()
            == 0,
    ensures
        spec_dispatch(items, req, vfs) == Some(items[i].spec_handle(req, vfs)),
{
    let p = items[i]->Proxy_0;
    crate::proxy::lemma_catch_all(&p, k, req);
    lemma_dispatch_first_match(items, i, req, vfs);
}

/// Totality: a handler list ending in a not-found handler dispatches
/// every request to something — there is no unmatched request.
pub proof fn lemma_totality(
    items: Seq<Handler>,
    req: RequestHeadV,
    vfs: Seq<(Seq<u8>, Seq<u8>)>,
)
    requires
        items.len() > 0,
        items.last() is NotFound,
    ensures
        spec_dispatch(items, req, vfs) is Some,
    decreases items.len(),
{
    if items[0].spec_check(req, vfs) {
    } else {
        assert(items.len() > 1) by {
            if items.len() == 1 {
                assert(items[0] == items.last());
            }
        }
        assert(items.skip(1).last() == items.last());
        lemma_totality(items.skip(1), req, vfs);
    }
}

} // verus!
