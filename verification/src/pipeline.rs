//! The response-rewrite pipeline. When a response head arrives, every
//! rule's guard is evaluated once; if none matches (or the request is
//! upgrade traffic on the reserved websocket path) the body streams
//! through chunk by chunk, untouched. Otherwise the whole body is
//! buffered, decoded from its content encoding, transformed by the
//! matching rules in registration order, re-encoded, and emitted as a
//! single chunk with the size and encoding headers made truthful again.
//! Any failure inside the optional rewrite path degrades to passing the
//! original bytes through unchanged.

use vstd::prelude::*;

use crate::bytes::begins_with;
use crate::codec::{
    encoding_name, encoding_of, gunzip_of, gzip_decode, gzip_encode, is_utf8, spec_encoding_name,
    spec_encoding_of, ContentEncoding,
};
use crate::http::{BodySize, RequestHead, ResponseHead};
use crate::rules::{spec_apply, spec_indexes, RespModData};
use vstd::string::StringSliceAdditionalSpecFns;
use vstd::utf8::valid_utf8;

verus! {

/// Requests under this path carry upgraded websocket traffic, which must
/// never be buffered, whatever the guards say.
pub open spec fn spec_ws_prefix() -> Seq<u8> {
    "/__bs3/ws".spec_bytes()
}

/// How a buffered body left the rewrite step.
#[derive(Clone, Copy, PartialEq, Eq, Structural, Debug)]
pub enum RewriteOutcome {
    /// The body was text (after decoding) and the matched rules ran.
    Rewritten,
    /// The decoded body was not UTF-8; the original bytes were kept.
    NotText,
    /// The body claimed gzip but did not decode; the original bytes were
    /// kept.
    DecodeFailed,
    /// No rule matched: the body was forwarded without buffering.
    Forwarded,
}

/// What the rewrite step promises of its output: with identity encoding a
/// text body is transformed and anything else is kept; with gzip a body
/// that decodes to text is transformed under the compression (decoding the
/// output yields the transformed text), and a body that fails to decode,
/// or decodes to non-text, is kept byte for byte.
pub open spec fn rewrite_post(
    rules: Seq<crate::rules::RewriteRule>,
    idxs: Seq<usize>,
    enc: ContentEncoding,
    body: Seq<u8>,
    out: Seq<u8>,
    outcome: RewriteOutcome,
) -> bool {
    match enc {
        ContentEncoding::Identity => if valid_utf8(body) {
            outcome == RewriteOutcome::Rewritten && out == spec_apply(rules, idxs, body)
        } else {
            outcome == RewriteOutcome::NotText && out == body
        },
        ContentEncoding::Gzip => match gunzip_of(body) {
            Some(s) => if valid_utf8(s) {
                outcome == RewriteOutcome::Rewritten && gunzip_of(out) == Some(
                    spec_apply(rules, idxs, s),
                )
            } else {
                outcome == RewriteOutcome::NotText && out == body
            },
            None => outcome == RewriteOutcome::DecodeFailed && out == body,
        },
    }
}

/// The whole buffered body through the codec round trip: decode under
/// `enc`, apply the rules named by `idxs` in order, re-encode. Both
/// decode failures fall back to the original bytes.
pub fn rewrite_buffered(
    rules: &RespModData,
    idxs: &Vec<usize>,
    enc: ContentEncoding,
    body: Vec<u8>,
) -> (r: (Vec<u8>, RewriteOutcome))
    requires
        forall|k: int| 0 <= k < idxs@.len() ==> idxs@[k] < rules@.len(),
    ensures
        rewrite_post(rules@, idxs@, enc, body@, r.0@, r.1),
{
    match enc {
        ContentEncoding::Identity => {
            if is_utf8(body.as_slice()) {
                let out = rules.process_str(body, idxs);
                (out, RewriteOutcome::Rewritten)
            } else {
                (body, RewriteOutcome::NotText)
            }
        },
        ContentEncoding::Gzip => {
            match gzip_decode(body.as_slice()) {
                Some(decoded) => {
                    if is_utf8(decoded.as_slice()) {
                        let transformed = rules.process_str(decoded, idxs);
                        let out = gzip_encode(transformed.as_slice());
                        (out, RewriteOutcome::Rewritten)
                    } else {
                        (body, RewriteOutcome::NotText)
                    }
                },
                None => (body, RewriteOutcome::DecodeFailed),
            }
        },
    }
}

/// Per-response pipeline state, created when the response head is
/// observed and destroyed when the response is fully flushed. The
/// buffer-or-stream decision is made once, here, and never re-evaluated
/// mid-stream.
pub struct RewriteContext {
    pub buffering: bool,
    pub indexes: Vec<usize>,
    pub encoding: ContentEncoding,
    pub buffer: Vec<u8>,
}

/// Spec-level value of a `RewriteContext`.
pub struct RewriteContextV {
    pub buffering: bool,
    pub indexes: Seq<usize>,
    pub encoding: ContentEncoding,
    pub buffer: Seq<u8>,
}

impl View for RewriteContext {
    type V = RewriteContextV;

    open spec fn view(&self) -> RewriteContextV {
        RewriteContextV {
            buffering: self.buffering,
            indexes: self.indexes@,
            encoding: self.encoding,
            buffer: self.buffer@,
        }
    }
}

impl RewriteContext {
    /// Feed one body chunk through the pipeline. In the streaming case
    /// the chunk is handed straight back, unchanged, without waiting for
    /// the rest of the body; in the buffering case it is accumulated and
    /// nothing is emitted yet.
    pub fn push_chunk(&mut self, chunk: Vec<u8>) -> (out: Option<Vec<u8>>)
        ensures
            !old(self)@.buffering ==> (match out {
                Some(v) => v@ == chunk@,
                None => false,
            } && final(self)@ == old(self)@),
            old(self)@.buffering ==> out is None && final(self)@ == (RewriteContextV {
                buffer: old(self)@.buffer + chunk@,
                ..old(self)@
            }),
    {
        if self.buffering {
            crate::bytes::push_all(&mut self.buffer, chunk.as_slice());
            None
        } else {
            Some(chunk)
        }
    }
}

impl RewriteContext {
    /// Whether the declared body size says the accumulation is complete:
    /// a sized body is complete once that many bytes are here, a
    /// streaming body only when the inner source says so.
    pub fn is_complete(&self, declared: BodySize) -> (r: bool)
        ensures
            r == match declared {
                BodySize::Sized(n) => self@.buffer.len() >= n,
                BodySize::Stream => false,
            },
    {
        match declared {
            BodySize::Sized(n) => self.buffer.len() >= n,
            BodySize::Stream => false,
        }
    }
}

/// The pipeline around an inner handler: holds the configured rule list
/// and decides, per response, between streaming and buffering.
pub struct RespModMiddleware {
    pub transforms: RespModData,
}

impl RespModMiddleware {
    /// Observe a response head: evaluate every guard once and fix the
    /// buffer-or-stream decision for the rest of this response.
    pub fn begin(&self, req: &RequestHead, res: &ResponseHead) -> (ctx: RewriteContext)
        ensures
            ctx@.buffering == (spec_indexes(self.transforms@, req@, res@).len() > 0
                && !begins_with(req@.path, spec_ws_prefix())),
            ctx@.indexes == spec_indexes(self.transforms@, req@, res@),
            forall|k: int| 0 <= k < ctx@.indexes.len() ==> ctx@.indexes[k] < self.transforms@.len(),
            ctx@.encoding == spec_encoding_of(res@.headers),
            ctx@.buffer == Seq::<u8>::empty(),
    {
        let indexes = self.transforms.indexes(req, res);
        let upgrade = crate::bytes::begins_with_exec(req.path.as_slice(), "/__bs3/ws".as_bytes());
        let buffering = indexes.len() > 0 && !upgrade;
        RewriteContext {
            buffering,
            indexes,
            encoding: encoding_of(&res.headers),
            buffer: Vec::new(),
        }
    }

    /// The inner body has ended. In the buffering case the accumulated
    /// body goes through the rewrite step and the response head is
    /// updated to the new size and the kept encoding; in the streaming
    /// case nothing is emitted and the head is left alone.
    pub fn finish(&self, ctx: RewriteContext, res: &mut ResponseHead) -> (out: Option<
        (Vec<u8>, RewriteOutcome),
    >)
        requires
            forall|k: int| 0 <= k < ctx@.indexes.len() ==> ctx@.indexes[k] < self.transforms@.len(),
        ensures
            !ctx@.buffering ==> out is None && final(res)@ == old(res)@,
            ctx@.buffering ==> match out {
                Some(pair) => {
                    &&& rewrite_post(
                        self.transforms@,
                        ctx@.indexes,
                        ctx@.encoding,
                        ctx@.buffer,
                        pair.0@,
                        pair.1,
                    )
                    &&& final(res)@.status == old(res)@.status
                    &&& final(res)@.headers == crate::http::spec_remove(
                        old(res)@.headers,
                        "content-encoding".spec_bytes(),
                    ).push(("content-encoding".spec_bytes(), spec_encoding_name(ctx@.encoding)))
                    &&& final(res)@.body_size == BodySize::Sized(pair.0@.len() as usize)
                },
                None => false,
            },
    {
        if !ctx.buffering {
            return None;
        }
        let ghost cv = ctx@;
        let RewriteContext { buffering: _, indexes, encoding, buffer } = ctx;
        assert(indexes@ == cv.indexes);
        let (out, outcome) = rewrite_buffered(&self.transforms, &indexes, encoding, buffer);
        let name = encoding_name(encoding);
        res.headers.set("content-encoding", name);
        res.body_size = BodySize::Sized(out.len());
        Some((out, outcome))
    }

    /// A whole response through the pipeline in one call: the head is
    /// observed, the body fed in as a single chunk, and the stream ended.
    /// Returns the bytes the client receives. When no rule matches (or
    /// the path is upgrade traffic) those are the inner handler's bytes,
    /// byte for byte, and the head is untouched.
    pub fn apply_response(&self, req: &RequestHead, res: &mut ResponseHead, body: Vec<u8>) -> (r: (
        Vec<u8>,
        RewriteOutcome,
    ))
        ensures
            ({
                let idxs = spec_indexes(self.transforms@, req@, old(res)@);
                let buffering = idxs.len() > 0 && !begins_with(req@.path, spec_ws_prefix());
                let enc = spec_encoding_of(old(res)@.headers);
                &&& (!buffering ==> r.1 == RewriteOutcome::Forwarded && r.0@ == body@
                    && final(res)@ == old(res)@)
                &&& (buffering ==> {
                    &&& rewrite_post(self.transforms@, idxs, enc, body@, r.0@, r.1)
                    &&& final(res)@.status == old(res)@.status
                    &&& final(res)@.headers == crate::http::spec_remove(
                        old(res)@.headers,
                        "content-encoding".spec_bytes(),
                    ).push(("content-encoding".spec_bytes(), spec_encoding_name(enc)))
                    &&& final(res)@.body_size == BodySize::Sized(r.0@.len() as usize)
                })
            }),
    {
        let mut ctx = self.begin(req, res);
        let first = ctx.push_chunk(body);
        match first {
            Some(chunk) => {
                // streaming: the chunk went straight through and the end
                // of the stream changes nothing
                let ended = self.finish(ctx, res);
                assert(ended is None);
                (chunk, RewriteOutcome::Forwarded)
            },
            None => {
                proof {
                    assert(Seq::<u8>::empty() + body@ =~= body@);
                }
                match self.finish(ctx, res) {
                    Some(pair) => pair,
                    None => {
                        proof {
                            assert(false);
                        }
                        (Vec::new(), RewriteOutcome::Forwarded)
                    },
                }
            },
        }
    }
}

} // verus!
