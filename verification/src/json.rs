//! The little JSON the server emits: string escaping, quoting and
//! comma-joining, shared by the not-found diagnostic page and the stdout
//! messages.

use vstd::prelude::*;

use crate::bytes::push_all;
use vstd::string::StringSliceAdditionalSpecFns;

verus! {

/// `s` with every backslash and double quote escaped, as a JSON string
/// body. (What the server serializes came from its own configuration,
/// which holds no control characters.)
pub open spec fn spec_json_escape(s: Seq<u8>) -> Seq<u8>
    decreases s.len(),
{
    if s.len() == 0 {
        Seq::empty()
    } else {
        spec_json_escape(s.drop_last()) + (if s.last() == 34 || s.last() == 92 {
            "\\".spec_bytes() + seq![s.last()]
        } else {
            seq![s.last()]
        })
    }
}

/// `s` as a JSON string: quoted and escaped.
pub open spec fn spec_json_string(s: Seq<u8>) -> Seq<u8> {
    "\"".spec_bytes() + spec_json_escape(s) + "\"".spec_bytes()
}

/// The pieces joined with commas.
pub open spec fn spec_json_joined(items: Seq<Seq<u8>>) -> Seq<u8>
    decreases items.len(),
{
    if items.len() == 0 {
        Seq::empty()
    } else if items.len() == 1 {
        items[0]
    } else {
        spec_json_joined(items.drop_last()) + ",".spec_bytes() + items.last()
    }
}

/// Executable form of `spec_json_string`: append `s` to `out`, quoted and
/// escaped.
pub fn push_json_string(out: &mut Vec<u8>, s: &[u8])
    ensures
        final(out)@ == old(out)@ + spec_json_string(s@),
{
    push_all(out, "\"".as_bytes());
    let mut i: usize = 0;
    proof {
        assert(s@.take(0) =~= Seq::<u8>::empty());
        assert(out@ =~= old(out)@ + "\"".spec_bytes() + spec_json_escape(s@.take(0)));
    }
    while i < s.len()
        invariant
            i <= s.len(),
            out@ == old(out)@ + "\"".spec_bytes() + spec_json_escape(s@.take(i as int)),
        decreases s.len() - i,
    {
        proof {
            assert(s@.take(i + 1).drop_last() =~= s@.take(i as int));
            assert(s@.take(i + 1).last() == s@[i as int]);
        }
        let b = s[i];
        if b == 34 || b == 92 {
            push_all(out, "\\".as_bytes());
        }
        out.push(b);
        i += 1;
    }
    push_all(out, "\"".as_bytes());
    proof {
        assert(s@.take(s@.len() as int) =~= s@);
        assert(out@ =~= old(out)@ + spec_json_string(s@));
    }
}

} // verus!
