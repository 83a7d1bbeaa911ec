//! The terminal fallback handler. It takes every request and answers,
//! deliberately with status 200, a diagnostic page embedding the active
//! serve-static configuration, so a developer immediately sees why
//! nothing matched.

use vstd::prelude::*;

use crate::bytes::{copy_bytes, push_all, replace_bytes, spec_replace};
use crate::json::{push_json_string, spec_json_joined, spec_json_string};
use crate::config::{ss_views, ServeStaticConfig, ServeStaticConfigV};
use crate::http::{spec_text_response, text_response_bytes, Response};
use vstd::string::StringSliceAdditionalSpecFns;

verus! {

/// One serve-static entry as a JSON object.
pub open spec fn spec_json_entry(c: ServeStaticConfigV) -> Seq<u8> {
    match c {
        ServeStaticConfigV::DirOnly(d) => "{\"dir\":".spec_bytes() + spec_json_string(d)
            + "}".spec_bytes(),
        ServeStaticConfigV::Multi(m) => "{\"routes\":[".spec_bytes() + spec_json_joined(
            m.routes.map_values(|r: Seq<u8>| spec_json_string(r)),
        ) + "],\"dir\":".spec_bytes() + spec_json_string(m.dir) + "}".spec_bytes(),
    }
}

/// The whole serve-static list as a JSON array.
pub open spec fn spec_json_routes(l: Seq<ServeStaticConfigV>) -> Seq<u8> {
    "[".spec_bytes() + spec_json_joined(l.map_values(|c: ServeStaticConfigV| spec_json_entry(c)))
        + "]".spec_bytes()
}

/// Executable form of `spec_json_entry`: append one entry to `out`.
fn push_json_entry(out: &mut Vec<u8>, c: &ServeStaticConfig)
    ensures
        final(out)@ == old(out)@ + spec_json_entry(c@),
{
    match c {
        ServeStaticConfig::DirOnly(d) => {
            push_all(out, "{\"dir\":".as_bytes());
            push_json_string(out, d.dir.as_slice());
            push_all(out, "}".as_bytes());
            proof {
                assert(out@ =~= old(out)@ + spec_json_entry(c@));
            }
        },
        ServeStaticConfig::Multi(m) => {
            let ghost strings = crate::static_files::seq_views(m.routes@).map_values(
                |r: Seq<u8>| spec_json_string(r),
            );
            push_all(out, "{\"routes\":[".as_bytes());
            let ghost mid = out@;
            let mut j: usize = 0;
            proof {
                assert(strings.take(0) =~= Seq::<Seq<u8>>::empty());
                assert(out@ =~= mid + spec_json_joined(strings.take(0)));
            }
            while j < m.routes.len()
                invariant
                    j <= m.routes.len(),
                    strings == crate::static_files::seq_views(m.routes@).map_values(
                        |r: Seq<u8>| spec_json_string(r),
                    ),
                    out@ == mid + spec_json_joined(strings.take(j as int)),
                decreases m.routes.len() - j,
            {
                proof {
                    assert(strings.take(j + 1).drop_last() =~= strings.take(j as int));
                    assert(crate::static_files::seq_views(m.routes@)[j as int] == m.routes@[
                        j as int]@);
                    assert(strings.take(j + 1).last() == spec_json_string(m.routes@[j as int]@));
                }
                if j > 0 {
                    push_all(out, ",".as_bytes());
                }
                push_json_string(out, m.routes[j].as_slice());
                j += 1;
            }
            proof {
                assert(strings.take(strings.len() as int) =~= strings);
            }
            push_all(out, "],\"dir\":".as_bytes());
            push_json_string(out, m.dir.as_slice());
            push_all(out, "}".as_bytes());
            proof {
                assert(out@ =~= old(out)@ + spec_json_entry(c@));
            }
        },
    }
}

/// Executable form of `spec_json_routes`.
pub fn json_routes(routes: &Vec<ServeStaticConfig>) -> (r: Vec<u8>)
    ensures
        r@ == spec_json_routes(ss_views(routes@)),
{
    let ghost entries = ss_views(routes@).map_values(|c: ServeStaticConfigV| spec_json_entry(c));
    let mut out: Vec<u8> = Vec::new();
    push_all(&mut out, "[".as_bytes());
    let ghost mid = out@;
    let mut i: usize = 0;
    proof {
        assert(entries.take(0) =~= Seq::<Seq<u8>>::empty());
        assert(out@ =~= mid + spec_json_joined(entries.take(0)));
    }
    while i < routes.len()
        invariant
            i <= routes.len(),
            entries == ss_views(routes@).map_values(|c: ServeStaticConfigV| spec_json_entry(c)),
            mid == "[".spec_bytes(),
            out@ == mid + spec_json_joined(entries.take(i as int)),
        decreases routes.len() - i,
    {
        proof {
            assert(entries.take(i + 1).drop_last() =~= entries.take(i as int));
            assert(ss_views(routes@)[i as int] == routes@[i as int]@);
            assert(entries.take(i + 1).last() == spec_json_entry(routes@[i as int]@));
        }
        if i > 0 {
            push_all(&mut out, ",".as_bytes());
        }
        push_json_entry(&mut out, &routes[i]);
        i += 1;
    }
    proof {
        assert(entries.take(entries.len() as int) =~= entries);
    }
    push_all(&mut out, "]".as_bytes());
    proof {
        assert(out@ =~= spec_json_routes(ss_views(routes@)));
    }
    out
}

/// The diagnostic page, with `{config}` standing where the configured
/// routes go.
pub open spec fn spec_not_found_template() -> Seq<u8> {
    "<!doctype html><html><body><h1>Not found</h1><p>Configured routes:</p><pre>{config}</pre></body></html>".spec_bytes()
}

/// The terminal fallback: takes everything, answers a 200 diagnostic
/// page.
pub struct NotFound {
    pub routes: Vec<ServeStaticConfig>,
}

impl NotFound {
    /// The diagnostic response: the template with the serialized route
    /// list in place of `{config}`.
    pub open spec fn spec_handle(self) -> crate::http::ResponseV {
        spec_text_response(
            200,
            "text/html".spec_bytes(),
            spec_replace(
                spec_not_found_template(),
                "{config}".spec_bytes(),
                spec_json_routes(ss_views(self.routes@)),
            ),
        )
    }

    /// Executable form of `NotFound::spec_handle`.
    pub fn call(&self) -> (r: Response)
        ensures
            r@ == self.spec_handle(),
    {
        let json = json_routes(&self.routes);
        let template = copy_bytes(
            "<!doctype html><html><body><h1>Not found</h1><p>Configured routes:</p><pre>{config}</pre></body></html>".as_bytes(),
        );
        let body = replace_bytes(template.as_slice(), "{config}".as_bytes(), json.as_slice());
        let ct = copy_bytes("text/html".as_bytes());
        text_response_bytes(200, ct, body)
    }
}

} // verus!
