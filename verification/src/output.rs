//! What the server writes to standard output: one message per event, in a
//! chosen format. The writing itself happens outside the library; the
//! line's bytes are decided here.

use vstd::prelude::*;

use crate::bytes::push_all;
use crate::json::{push_json_string, spec_json_string};
use vstd::string::StringSliceAdditionalSpecFns;

verus! {

/// A message the server reports while running.
#[derive(Debug, PartialEq, Eq)]
pub enum BrowserSyncOutputMsg {
    /// The server is up and reachable at this address.
    Listening { bind_address: Vec<u8> },
}

/// How stdout messages are written.
#[derive(Clone, Copy, PartialEq, Eq, Structural, Debug)]
pub enum StdOutFormat {
    Human,
    Json,
    JsonPretty,
}

/// The stdout sink: formats each message as one chunk of output.
pub struct StdOut {
    pub format: StdOutFormat,
}

impl Default for StdOut {
    /// Pretty-printed JSON, the default output format.
    fn default() -> (r: StdOut)
        ensures
            r.format == StdOutFormat::JsonPretty,
    {
        StdOut { format: StdOutFormat::JsonPretty }
    }
}

/// The line written for a listening message, per format: a sentence for
/// humans, or the message as a (compact or pretty) JSON document.
pub open spec fn spec_output_line(format: StdOutFormat, addr: Seq<u8>) -> Seq<u8> {
    match format {
        StdOutFormat::Human => "Server ready at ".spec_bytes() + addr,
        StdOutFormat::Json => "{\"kind\":\"Listening\",\"payload\":{\"bind_address\":".spec_bytes()
            + spec_json_string(addr) + "}}".spec_bytes(),
        StdOutFormat::JsonPretty => "{\n  \"kind\": \"Listening\",\n  \"payload\": {\n    \"bind_address\": ".spec_bytes()
            + spec_json_string(addr) + "\n  }\n}".spec_bytes(),
    }
}

impl StdOut {
    /// The bytes written for `msg` (executable form of
    /// `spec_output_line`).
    pub fn handle(&self, msg: &BrowserSyncOutputMsg) -> (r: Vec<u8>)
        ensures
            msg matches BrowserSyncOutputMsg::Listening { bind_address } ==> r@
                == spec_output_line(self.format, bind_address@),
    {
        let BrowserSyncOutputMsg::Listening { bind_address } = msg;
        let mut out: Vec<u8> = Vec::new();
        match self.format {
            StdOutFormat::Human => {
                push_all(&mut out, "Server ready at ".as_bytes());
                push_all(&mut out, bind_address.as_slice());
            },
            StdOutFormat::Json => {
                push_all(
                    &mut out,
                    "{\"kind\":\"Listening\",\"payload\":{\"bind_address\":".as_bytes(),
                );
                push_json_string(&mut out, bind_address.as_slice());
                push_all(&mut out, "}}".as_bytes());
            },
            StdOutFormat::JsonPretty => {
                push_all(
                    &mut out,
                    "{\n  \"kind\": \"Listening\",\n  \"payload\": {\n    \"bind_address\": ".as_bytes(),
                );
                push_json_string(&mut out, bind_address.as_slice());
                push_all(&mut out, "\n  }\n}".as_bytes());
            },
        }
        out
    }
}

} // verus!
