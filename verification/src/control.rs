//! The control surface: the HTTP stop message a running server accepts,
//! and the outcome of asking a server to stop. The transport that carries
//! these stays outside the library; what the bytes mean is decided here.

use vstd::prelude::*;

use crate::bytes::bytes_eq;
use vstd::string::StringSliceAdditionalSpecFns;

verus! {

/// A control message arriving over HTTP.
#[derive(Clone, Copy, PartialEq, Eq, Structural, Debug)]
pub enum IncomingHttpMsg {
    Stop,
}

/// A whitespace byte: space, tab, line feed or carriage return.
pub open spec fn is_ws(b: u8) -> bool {
    b == 32 || b == 9 || b == 10 || b == 13
}

/// `s` with every whitespace byte outside double-quoted strings removed;
/// whitespace inside a string stays, and each `"` flips the
/// inside-a-string state. (Escape sequences are not interpreted; the one
/// message recognized contains none.)
pub open spec fn spec_strip_ws(s: Seq<u8>, in_string: bool) -> Seq<u8>
    decreases s.len(),
{
    if s.len() == 0 {
        Seq::empty()
    } else {
        let b = s[0];
        (if is_ws(b) && !in_string {
            Seq::<u8>::empty()
        } else {
            seq![b]
        }) + spec_strip_ws(
            s.skip(1),
            if b == 34 {
                !in_string
            } else {
                in_string
            },
        )
    }
}

/// The stop message body, with whitespace already stripped.
pub open spec fn spec_stop_msg() -> Seq<u8> {
    "{\"kind\":\"Stop\"}".spec_bytes()
}

/// Parse a control message: exactly the JSON object `{"kind": "Stop"}`,
/// whitespace between tokens ignored but whitespace inside the quoted
/// strings kept significant. Anything else is no message.
pub fn parse_incoming_msg(s: &[u8]) -> (r: Option<IncomingHttpMsg>)
    ensures
        r == if spec_strip_ws(s@, false) == spec_stop_msg() {
            Some(IncomingHttpMsg::Stop)
        } else {
            None::<IncomingHttpMsg>
        },
{
    let mut stripped: Vec<u8> = Vec::new();
    let mut in_string = false;
    let mut i: usize = 0;
    proof {
        assert(s@.skip(0) =~= s@);
        assert(stripped@ + spec_strip_ws(s@, false) =~= spec_strip_ws(s@, false));
    }
    while i < s.len()
        invariant
            i <= s.len(),
            stripped@ + spec_strip_ws(s@.skip(i as int), in_string) == spec_strip_ws(s@, false),
        decreases s.len() - i,
    {
        let ghost rest = s@.skip(i as int);
        let ghost before = stripped@;
        proof {
            assert(rest[0] == s@[i as int]);
            assert(rest.skip(1) =~= s@.skip(i + 1));
        }
        let b = s[i];
        let ghost next_state = if b == 34 {
            !in_string
        } else {
            in_string
        };
        if (b == 32 || b == 9 || b == 10 || b == 13) && !in_string {
            proof {
                assert(spec_strip_ws(rest, in_string) == Seq::<u8>::empty() + spec_strip_ws(
                    s@.skip(i + 1),
                    next_state,
                ));
                assert(before + (Seq::<u8>::empty() + spec_strip_ws(s@.skip(i + 1), next_state))
                    =~= before + spec_strip_ws(s@.skip(i + 1), next_state));
            }
        } else {
            stripped.push(b);
            proof {
                assert(spec_strip_ws(rest, in_string) == seq![b] + spec_strip_ws(
                    s@.skip(i + 1),
                    next_state,
                ));
                assert(before + (seq![b] + spec_strip_ws(s@.skip(i + 1), next_state)) =~= before.push(
                    b,
                ) + spec_strip_ws(s@.skip(i + 1), next_state));
            }
        }
        if b == 34 {
            in_string = !in_string;
        }
        i += 1;
    }
    proof {
        assert(s@.skip(s@.len() as int) =~= Seq::<u8>::empty());
        assert(stripped@ + Seq::<u8>::empty() =~= stripped@);
    }
    if bytes_eq(stripped.as_slice(), "{\"kind\":\"Stop\"}".as_bytes()) {
        Some(IncomingHttpMsg::Stop)
    } else {
        None
    }
}

/// Why a stop request failed.
#[derive(Clone, Copy, PartialEq, Eq, Structural, Debug)]
pub enum MutationError {
    /// The stop signal could not be delivered to the server.
    CouldNotStop,
}

impl MutationError {
    /// A short description, for diagnostics.
    pub fn message(&self) -> &'static str {
        "Could not stop the server"
    }
}

/// What a stop request reports back.
#[derive(Clone, Copy, PartialEq, Eq, Structural, Debug)]
pub enum MutationResult {
    Stopped,
}

/// The reply to a stop mutation.
#[derive(Clone, Copy, PartialEq, Eq, Structural, Debug)]
pub struct Stop {
    pub stop: MutationResult,
}

/// The root of the control mutations a running server answers.
pub struct MutationRoot;

impl MutationRoot {
    /// The outcome of a stop request, given whether the stop signal
    /// reached the server: delivered means stopped, undelivered is the
    /// one failure.
    pub fn stop(&self, delivered: bool) -> (r: Result<MutationResult, MutationError>)
        ensures
            delivered ==> r == Ok::<_, MutationError>(MutationResult::Stopped),
            !delivered ==> r == Err::<MutationResult, _>(MutationError::CouldNotStop),
    {
        if delivered {
            Ok(MutationResult::Stopped)
        } else {
            Err(MutationError::CouldNotStop)
        }
    }
}

} // verus!
