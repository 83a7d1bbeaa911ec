//! The assembled server instance: its configuration and the local URL it
//! binds to. The URL is plain pieces; only its port ever changes.

use vstd::prelude::*;

use crate::bytes::{copy_bytes, dec_digits, push_all, u16_to_dec};
use crate::config::{spec_parse_config, str_views, CliError, Config, ConfigV};
use crate::urlparts::{UrlParts, UrlPartsV};
use vstd::string::StringSliceAdditionalSpecFns;

verus! {

/// A startup failure, with a human-readable message in place of the
/// foreign error it grew from.
pub enum BsError {
    /// The listener could not bind to the chosen port.
    CouldNotBind { port: u16, msg: Vec<u8> },
    /// Anything else.
    Unknown { msg: Vec<u8> },
}

impl BsError {
    /// Wrap any failure message as an unknown startup error.
    pub fn unknown(msg: &str) -> (r: BsError)
        ensures
            r matches BsError::Unknown { msg: m } && m@ == msg.spec_bytes(),
    {
        BsError::Unknown { msg: copy_bytes(msg.as_bytes()) }
    }
}

/// The URL the server tries to bind to, e.g. `http://0.0.0.0:8080`.
#[derive(Debug, PartialEq, Eq)]
pub struct LocalUrl {
    pub inner: UrlParts,
}

/// The default local URL: `http://0.0.0.0:8080/`.
pub open spec fn spec_local_default() -> UrlPartsV {
    UrlPartsV {
        scheme: "http".spec_bytes(),
        host: Some("0.0.0.0".spec_bytes()),
        port: Some(8080u16),
        path: "/".spec_bytes(),
        query: None,
    }
}

impl Default for LocalUrl {
    /// The default local URL, `http://0.0.0.0:8080/`.
    fn default() -> (r: LocalUrl)
        ensures
            r.inner@ == spec_local_default(),
    {
        let r = LocalUrl {
            inner: UrlParts {
                scheme: copy_bytes("http".as_bytes()),
                host: Some(copy_bytes("0.0.0.0".as_bytes())),
                port: Some(8080),
                path: copy_bytes("/".as_bytes()),
                query: None,
            },
        };
        proof {
            assert(r.inner@ =~~= spec_local_default());
        }
        r
    }
}

impl LocalUrl {
    /// The default local URL on the given port; no port keeps the
    /// default's 8080. Never fails.
    pub fn try_from_port(port: Option<u16>) -> (r: Result<LocalUrl, BsError>)
        ensures
            r matches Ok(l) && l.inner@ == (UrlPartsV {
                port: Some(
                    match port {
                        Some(p) => p,
                        None => 8080u16,
                    },
                ),
                ..spec_local_default()
            }),
    {
        let mut url = LocalUrl::default();
        match port {
            Some(p) => {
                url.inner.port = Some(p);
            },
            None => (),
        }
        proof {
            assert(url.inner@ =~~= UrlPartsV {
                port: Some(
                    match port {
                        Some(p) => p,
                        None => 8080u16,
                    },
                ),
                ..spec_local_default()
            });
        }
        Ok(url)
    }
}

/// One server instance: configuration plus the address it will bind to.
#[derive(Debug, PartialEq, Eq)]
pub struct BrowserSync {
    pub config: Config,
    pub local_url: LocalUrl,
}

/// `host:port`, the address the listener binds; a missing host gives an
/// empty host part and a missing port falls back to 80.
pub open spec fn spec_bind_address(u: UrlPartsV) -> Seq<u8> {
    (match u.host {
        Some(h) => h,
        None => Seq::<u8>::empty(),
    }) + ":".spec_bytes() + dec_digits(
        (match u.port {
            Some(p) => p,
            None => 80u16,
        }) as nat,
    )
}

impl Default for BrowserSync {
    /// Nothing configured, bound to the default local URL.
    fn default() -> (r: BrowserSync)
        ensures
            r.config@ == (ConfigV {
                serve_static: None,
                index: None,
                proxy: Seq::empty(),
                trailing_paths: Seq::empty(),
                port: None,
            }),
            r.local_url.inner@ == spec_local_default(),
    {
        BrowserSync { config: Config::default(), local_url: LocalUrl::default() }
    }
}

impl BrowserSync {
    /// Read an instance from command-line arguments (no program name in
    /// front): the parsed configuration, bound to its port, 8090 when
    /// none was given.
    pub fn try_from_args(args: &[&str]) -> (r: Result<BrowserSync, CliError>)
        ensures
            match r {
                Ok(bs) => spec_parse_config(str_views(args@)) == Ok::<_, CliError>(bs.config@)
                    && bs.local_url.inner@ == (UrlPartsV {
                    port: Some(
                        match bs.config@.port {
                            Some(p) => p,
                            None => 8090u16,
                        },
                    ),
                    ..spec_local_default()
                }),
                Err(e) => spec_parse_config(str_views(args@)) == Err::<ConfigV, _>(e),
            },
    {
        let config = match Config::from_all_args(args) {
            Ok(c) => c,
            Err(e) => {
                return Err(e);
            },
        };
        let port = match config.port {
            Some(p) => Some(p),
            None => crate::config::default_port(),
        };
        let local_url = match LocalUrl::try_from_port(port) {
            Ok(l) => l,
            Err(_) => {
                proof {
                    assert(false);
                }
                LocalUrl::default()
            },
        };
        Ok(BrowserSync { config, local_url })
    }

    /// Move the instance to another port. The configuration keeps
    /// everything else; the local URL is rebuilt from the default on the
    /// new port, so a customized host does not survive.
    pub fn set_port(&mut self, port: u16)
        ensures
            final(self).config@ == (ConfigV { port: Some(port), ..old(self).config@ }),
            final(self).local_url.inner@ == (UrlPartsV {
                port: Some(port),
                ..spec_local_default()
            }),
    {
        self.config.port = Some(port);
        self.local_url = match LocalUrl::try_from_port(Some(port)) {
            Ok(l) => l,
            Err(_) => {
                proof {
                    assert(false);
                }
                LocalUrl::default()
            },
        };
        proof {
            assert(self.config@ =~~= ConfigV { port: Some(port), ..old(self).config@ });
        }
    }

    /// Whether this instance binds the given address.
    pub fn binds(&self, addr: &[u8]) -> (r: bool)
        ensures
            r == (spec_bind_address(self.local_url.inner@) == addr@),
    {
        let mine = self.bind_address();
        crate::bytes::bytes_eq(mine.as_slice(), addr)
    }

    /// The address the listener binds, `host:port` (executable form of
    /// `spec_bind_address`).
    pub fn bind_address(&self) -> (r: Vec<u8>)
        ensures
            r@ == spec_bind_address(self.local_url.inner@),
    {
        let mut out: Vec<u8> = Vec::new();
        match &self.local_url.inner.host {
            Some(h) => push_all(&mut out, h.as_slice()),
            None => (),
        }
        push_all(&mut out, ":".as_bytes());
        let port = match self.local_url.inner.port {
            Some(p) => p,
            None => 80,
        };
        let digits = u16_to_dec(port);
        push_all(&mut out, digits.as_slice());
        proof {
            assert(out@ =~= spec_bind_address(self.local_url.inner@));
        }
        out
    }
}

/// Asks the running server set to forget the instance bound to this
/// address.
#[derive(Debug, PartialEq, Eq)]
pub struct RemoveInstance {
    pub bind_address: Vec<u8>,
}

/// `l` with the first instance bound to `addr` removed; without one, `l`
/// unchanged.
pub open spec fn spec_without_instance(l: Seq<BrowserSync>, addr: Seq<u8>) -> Seq<BrowserSync>
    decreases l.len(),
{
    if l.len() == 0 {
        l
    } else if spec_bind_address(l[0].local_url.inner@) == addr {
        l.skip(1)
    } else {
        seq![l[0]] + spec_without_instance(l.skip(1), addr)
    }
}

/// With no instance bound to `addr`, removal changes nothing.
proof fn lemma_without_instance_none(l: Seq<BrowserSync>, addr: Seq<u8>)
    requires
        forall|k: int|
            0 <= k < l.len() ==> spec_bind_address((#[trigger] l[k]).local_url.inner@) != addr,
    ensures
        spec_without_instance(l, addr) == l,
    decreases l.len(),
{
    if l.len() > 0 {
        lemma_without_instance_none(l.skip(1), addr);
        assert(seq![l[0]] + l.skip(1) =~= l);
    }
}

/// With the first bound instance at `p`, removal drops exactly it.
proof fn lemma_without_instance_at(l: Seq<BrowserSync>, addr: Seq<u8>, p: int)
    requires
        0 <= p < l.len(),
        forall|k: int|
            0 <= k < p ==> spec_bind_address((#[trigger] l[k]).local_url.inner@) != addr,
        spec_bind_address(l[p].local_url.inner@) == addr,
    ensures
        spec_without_instance(l, addr) == l.remove(p),
    decreases p,
{
    if p == 0 {
        assert(l.skip(1) =~= l.remove(0));
    } else {
        assert(forall|k: int|
            0 <= k < p - 1 ==> l.skip(1)[k] == l[k + 1]);
        assert(l.skip(1)[p - 1] == l[p]);
        lemma_without_instance_at(l.skip(1), addr, p - 1);
        assert(seq![l[0]] + l.skip(1).remove(p - 1) =~= l.remove(p));
    }
}

/// Forget the first instance bound to the message's address, as the
/// server does when one of its listeners has shut down (executable form
/// of `spec_without_instance`).
pub fn remove_instance(instances: &mut Vec<BrowserSync>, msg: &RemoveInstance)
    ensures
        final(instances)@ == spec_without_instance(old(instances)@, msg.bind_address@),
{
    let mut i: usize = 0;
    while i < instances.len()
        invariant
            i <= instances.len(),
            instances@ == old(instances)@,
            forall|k: int|
                0 <= k < i ==> spec_bind_address(
                    (#[trigger] instances@[k]).local_url.inner@,
                ) != msg.bind_address@,
        decreases instances.len() - i,
    {
        if instances[i].binds(msg.bind_address.as_slice()) {
            proof {
                lemma_without_instance_at(instances@, msg.bind_address@, i as int);
            }
            instances.remove(i);
            return ;
        }
        i += 1;
    }
    proof {
        lemma_without_instance_none(instances@, msg.bind_address@);
    }
}

} // verus!
