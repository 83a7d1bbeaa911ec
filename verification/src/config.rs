//! Startup configuration: the serve-static routes, proxy targets and port
//! read from command-line-style arguments, and the local URL the server
//! binds to. All of it is plain values, parsed by verified code; what the
//! arguments mean is pinned down by the spec functions here.

use vstd::prelude::*;

use crate::bytes::{
    begins_with, begins_with_exec, bytes_eq, copy_bytes, parse_u16, spec_parse_u16, spec_split,
    split_bytes,
};
use crate::proxy::{spec_target_from, ProxyError, ProxyTarget, ProxyTargetV};
use crate::static_files::seq_views;
use crate::urlparts::UrlParts;
use vstd::string::StringSliceAdditionalSpecFns;

verus! {

/// The port used when no `--port` argument is given.
pub fn default_port() -> (r: Option<u16>)
    ensures
        r == Some(8090u16),
{
    Some(8090)
}

/// Why a serve-static argument was rejected.
#[derive(Clone, Copy, PartialEq, Eq, Structural, Debug)]
pub enum ServeStaticError {
    /// The directory part was itself a route list.
    Invalid,
    /// An error nothing explains.
    Unknown,
    /// The directory part was empty.
    Empty,
}

impl ServeStaticError {
    /// A short description, for diagnostics.
    pub fn message(&self) -> &'static str {
        match self {
            ServeStaticError::Invalid => "Invalid serve static option",
            ServeStaticError::Unknown => "unknown serve static error",
            ServeStaticError::Empty => "directory path cannot be empty",
        }
    }
}

/// A directory served at the web root.
#[derive(Debug, PartialEq, Eq)]
pub struct DirOnly {
    pub dir: Vec<u8>,
}

impl View for DirOnly {
    type V = Seq<u8>;

    open spec fn view(&self) -> Seq<u8> {
        self.dir@
    }
}

/// A directory served under a list of mount routes.
#[derive(Debug, PartialEq, Eq)]
pub struct Multi {
    pub routes: Vec<Vec<u8>>,
    pub dir: Vec<u8>,
}

/// Spec-level value of a `Multi`.
#[verifier::ext_equal]
pub struct MultiV {
    pub routes: Seq<Seq<u8>>,
    pub dir: Seq<u8>,
}

impl View for Multi {
    type V = MultiV;

    open spec fn view(&self) -> MultiV {
        MultiV { routes: seq_views(self.routes@), dir: self.dir@ }
    }
}

/// One serve-static entry: a bare directory, or routes over a directory.
#[derive(Debug, PartialEq, Eq)]
pub enum ServeStaticConfig {
    DirOnly(DirOnly),
    Multi(Multi),
}

/// Spec-level value of a `ServeStaticConfig`.
#[verifier::ext_equal]
pub enum ServeStaticConfigV {
    DirOnly(Seq<u8>),
    Multi(MultiV),
}

impl View for ServeStaticConfig {
    type V = ServeStaticConfigV;

    open spec fn view(&self) -> ServeStaticConfigV {
        match self {
            ServeStaticConfig::DirOnly(d) => ServeStaticConfigV::DirOnly(d@),
            ServeStaticConfig::Multi(m) => ServeStaticConfigV::Multi(m@),
        }
    }
}

/// What reading a serve-static entry from an argument yields. The
/// argument is `dir`, or `route:...:dir`; an empty directory part is
/// rejected.
pub open spec fn spec_ss_from_str(s: Seq<u8>) -> Result<ServeStaticConfigV, ServeStaticError> {
    let parts = spec_split(s, 58);
    if parts.len() == 1 {
        if parts[0].len() == 0 {
            Err(ServeStaticError::Empty)
        } else {
            Ok(ServeStaticConfigV::DirOnly(parts[0]))
        }
    } else {
        if parts.last().len() == 0 {
            Err(ServeStaticError::Empty)
        } else {
            Ok(ServeStaticConfigV::Multi(MultiV { routes: parts.drop_last(), dir: parts.last() }))
        }
    }
}

impl ServeStaticConfig {
    /// A bare directory entry.
    pub fn from_dir_only(path: &str) -> (r: ServeStaticConfig)
        ensures
            r@ == ServeStaticConfigV::DirOnly(path.spec_bytes()),
    {
        ServeStaticConfig::DirOnly(DirOnly { dir: copy_bytes(path.as_bytes()) })
    }

    /// The directory a bare entry names; route lists and empty arguments
    /// are rejected.
    pub fn try_path_buf(item: &[u8]) -> (r: Result<Vec<u8>, ServeStaticError>)
        ensures
            match spec_ss_from_str(item@) {
                Ok(ServeStaticConfigV::DirOnly(d)) => r matches Ok(v) && v@ == d,
                Ok(ServeStaticConfigV::Multi(_)) => r == Err::<Vec<u8>, _>(
                    ServeStaticError::Invalid,
                ),
                Err(e) => r == Err::<Vec<u8>, _>(e),
            },
    {
        match Self::from_str_bytes(item) {
            Ok(ServeStaticConfig::DirOnly(d)) => Ok(d.dir),
            Ok(ServeStaticConfig::Multi(_)) => Err(ServeStaticError::Invalid),
            Err(e) => Err(e),
        }
    }

    /// Read an entry from an argument string (executable form of
    /// `spec_ss_from_str`).
    pub fn from_str(s: &str) -> (r: Result<ServeStaticConfig, ServeStaticError>)
        ensures
            match r {
                Ok(c) => spec_ss_from_str(s.spec_bytes()) == Ok::<_, ServeStaticError>(c@),
                Err(e) => spec_ss_from_str(s.spec_bytes()) == Err::<ServeStaticConfigV, _>(e),
            },
    {
        Self::from_str_bytes(s.as_bytes())
    }

    /// `ServeStaticConfig::from_str` over bytes.
    pub fn from_str_bytes(s: &[u8]) -> (r: Result<ServeStaticConfig, ServeStaticError>)
        ensures
            match r {
                Ok(c) => spec_ss_from_str(s@) == Ok::<_, ServeStaticError>(c@),
                Err(e) => spec_ss_from_str(s@) == Err::<ServeStaticConfigV, _>(e),
            },
    {
        let ghost pviews = spec_split(s@, 58);
        let mut parts = split_bytes(s, 58);
        if parts.len() == 1 {
            proof {
                assert(parts@[0]@ == pviews[0]);
            }
            let one = parts.remove(0);
            if one.len() == 0 {
                Err(ServeStaticError::Empty)
            } else {
                Ok(ServeStaticConfig::DirOnly(DirOnly { dir: one }))
            }
        } else {
            proof {
                assert(parts@[parts@.len() - 1]@ == pviews.last());
            }
            let dir = match parts.pop() {
                Some(d) => d,
                None => {
                    proof {
                        assert(false);
                    }
                    return Err(ServeStaticError::Unknown);
                },
            };
            if dir.len() == 0 {
                Err(ServeStaticError::Empty)
            } else {
                let m = Multi { routes: parts, dir };
                proof {
                    assert(m@ =~~= MultiV { routes: pviews.drop_last(), dir: pviews.last() });
                }
                Ok(ServeStaticConfig::Multi(m))
            }
        }
    }

    /// An entry-for-entry copy.
    pub fn duplicate(&self) -> (r: ServeStaticConfig)
        ensures
            r@ == self@,
    {
        match self {
            ServeStaticConfig::DirOnly(d) => ServeStaticConfig::DirOnly(
                DirOnly { dir: copy_bytes(d.dir.as_slice()) },
            ),
            ServeStaticConfig::Multi(m) => {
                let mut routes: Vec<Vec<u8>> = Vec::new();
                let mut i: usize = 0;
                proof {
                    assert(seq_views(routes@) =~= seq_views(m.routes@).take(0));
                }
                while i < m.routes.len()
                    invariant
                        i <= m.routes.len(),
                        seq_views(routes@) == seq_views(m.routes@).take(i as int),
                    decreases m.routes.len() - i,
                {
                    let ghost before = seq_views(routes@);
                    routes.push(copy_bytes(m.routes[i].as_slice()));
                    proof {
                        assert(seq_views(routes@) =~= before.push(m.routes@[i as int]@));
                        assert(seq_views(m.routes@)[i as int] == m.routes@[i as int]@);
                        assert(seq_views(routes@) =~= seq_views(m.routes@).take(i + 1));
                    }
                    i += 1;
                }
                proof {
                    assert(seq_views(m.routes@).take(m.routes@.len() as int) =~= seq_views(
                        m.routes@,
                    ));
                }
                let r = ServeStaticConfig::Multi(
                    Multi { routes, dir: copy_bytes(m.dir.as_slice()) },
                );
                proof {
                    assert(r@ =~~= self@);
                }
                r
            },
        }
    }
}

impl Default for ServeStaticConfig {
    /// The default entry serves the current directory at the root.
    fn default() -> (r: ServeStaticConfig)
        ensures
            r@ == ServeStaticConfigV::DirOnly(".".spec_bytes()),
    {
        ServeStaticConfig::from_dir_only(".")
    }
}

/// Anything that can say which serve-static entries it wants.
pub trait ServeStatic {
    /// What the implementer promises to hand out.
    spec fn spec_serve_static_config(&self) -> Seq<ServeStaticConfigV>;

    /// The serve-static entries the implementer wants.
    fn serve_static_config(&self) -> (r: Vec<ServeStaticConfig>)
        ensures
            ss_views(r@) == self.spec_serve_static_config(),
    ;
}

/// Why the command line was rejected.
#[derive(Clone, Copy, PartialEq, Eq, Structural, Debug)]
pub enum CliError {
    /// A flag that takes a value came last.
    MissingValue,
    /// A flag this program does not know.
    UnknownFlag,
    /// The `--port` value was not a decimal 16-bit number.
    InvalidPort,
    /// The `--proxy` value was rejected.
    InvalidProxy(ProxyError),
    /// The `--serve-static` value was rejected.
    InvalidServeStatic(ServeStaticError),
}

/// The small argument set of the standalone server: an optional index
/// file name and the directories to serve.
#[derive(Debug, PartialEq, Eq)]
pub struct Args {
    pub index: Option<Vec<u8>>,
    pub paths: Vec<Vec<u8>>,
}

/// Spec-level value of `Args`.
#[verifier::ext_equal]
pub struct ArgsV {
    pub index: Option<Seq<u8>>,
    pub paths: Seq<Seq<u8>>,
}

impl View for Args {
    type V = ArgsV;

    open spec fn view(&self) -> ArgsV {
        ArgsV {
            index: match self.index {
                Some(ref v) => Some(v@),
                None => None,
            },
            paths: seq_views(self.paths@),
        }
    }
}

/// The views of a sequence of string slices, as bytes.
pub open spec fn str_views(s: Seq<&str>) -> Seq<Seq<u8>> {
    s.map_values(|t: &str| t.spec_bytes())
}

/// What parsing the argument tokens (program name already removed)
/// yields: `--index` takes the next token as the index file name, the
/// first occurrence winning; any other `--` token is unknown; everything
/// else is a path to serve, in order.
pub open spec fn spec_parse_args(toks: Seq<Seq<u8>>) -> Result<ArgsV, CliError>
    decreases toks.len(),
{
    if toks.len() == 0 {
        Ok(ArgsV { index: None, paths: Seq::empty() })
    } else if toks[0] == "--index".spec_bytes() {
        if toks.len() == 1 {
            Err(CliError::MissingValue)
        } else {
            match spec_parse_args(toks.skip(2)) {
                Err(e) => Err(e),
                Ok(rest) => Ok(ArgsV { index: Some(toks[1]), paths: rest.paths }),
            }
        }
    } else if begins_with(toks[0], "--".spec_bytes()) {
        Err(CliError::UnknownFlag)
    } else {
        match spec_parse_args(toks.skip(1)) {
            Err(e) => Err(e),
            Ok(rest) => Ok(ArgsV { index: rest.index, paths: seq![toks[0]] + rest.paths }),
        }
    }
}

impl Args {
    /// Parse from position `i` of the token list (executable form of
    /// `spec_parse_args` on the remaining tokens).
    fn parse_from(toks: &Vec<Vec<u8>>, i: usize) -> (r: Result<Args, CliError>)
        requires
            i <= toks@.len(),
        ensures
            match r {
                Ok(a) => spec_parse_args(seq_views(toks@).skip(i as int)) == Ok::<_, CliError>(a@),
                Err(e) => spec_parse_args(seq_views(toks@).skip(i as int)) == Err::<ArgsV, _>(e),
            },
        decreases toks@.len() - i,
    {
        let ghost rest = seq_views(toks@).skip(i as int);
        if i >= toks.len() {
            proof {
                assert(rest =~= Seq::<Seq<u8>>::empty());
            }
            let a = Args { index: None, paths: Vec::new() };
            proof {
                assert(a@ =~~= ArgsV { index: None, paths: Seq::empty() });
            }
            return Ok(a);
        }
        proof {
            assert(rest[0] == toks@[i as int]@);
        }
        if bytes_eq(toks[i].as_slice(), "--index".as_bytes()) {
            if i + 1 >= toks.len() {
                return Err(CliError::MissingValue);
            }
            proof {
                assert(rest[1] == toks@[i + 1]@);
                assert(rest.skip(2) =~= seq_views(toks@).skip(i + 2));
            }
            match Self::parse_from(toks, i + 2) {
                Err(e) => Err(e),
                Ok(tail) => {
                    let a = Args { index: Some(copy_bytes(toks[i + 1].as_slice())), paths: tail.paths };
                    proof {
                        assert(a@ =~~= ArgsV { index: Some(rest[1]), paths: tail@.paths });
                    }
                    Ok(a)
                },
            }
        } else if begins_with_exec(toks[i].as_slice(), "--".as_bytes()) {
            Err(CliError::UnknownFlag)
        } else {
            proof {
                assert(rest.skip(1) =~= seq_views(toks@).skip(i + 1));
            }
            match Self::parse_from(toks, i + 1) {
                Err(e) => Err(e),
                Ok(tail) => {
                    let ghost tailv = tail@;
                    let mut paths = tail.paths;
                    paths.insert(0, copy_bytes(toks[i].as_slice()));
                    let a = Args { index: tail.index, paths };
                    proof {
                        assert(a@ =~~= ArgsV {
                            index: tailv.index,
                            paths: seq![rest[0]] + tailv.paths,
                        });
                    }
                    Ok(a)
                },
            }
        }
    }

    /// Parse a full argument list, the program name first, as the
    /// standalone server reads it.
    pub fn from_iter(args: &[&str]) -> (r: Result<Args, CliError>)
        ensures
            match r {
                Ok(a) => spec_parse_args(spec_cli_tokens(args@)) == Ok::<_, CliError>(a@),
                Err(e) => spec_parse_args(spec_cli_tokens(args@)) == Err::<ArgsV, _>(e),
            },
    {
        let toks = tokens_after_program(args);
        proof {
            assert(seq_views(toks@).skip(0) =~= seq_views(toks@));
        }
        Self::parse_from(&toks, 0)
    }
}

/// The argument tokens once the program name is removed; an empty list
/// stays empty.
pub open spec fn spec_cli_tokens(args: Seq<&str>) -> Seq<Seq<u8>> {
    if args.len() == 0 {
        Seq::empty()
    } else {
        str_views(args).skip(1)
    }
}

/// Copy the argument tokens, dropping the program name.
fn tokens_after_program(args: &[&str]) -> (r: Vec<Vec<u8>>)
    ensures
        seq_views(r@) == spec_cli_tokens(args@),
{
    let mut toks: Vec<Vec<u8>> = Vec::new();
    if args.len() == 0 {
        proof {
            assert(seq_views(toks@) =~= spec_cli_tokens(args@));
        }
        return toks;
    }
    let mut i: usize = 1;
    proof {
        assert(seq_views(toks@) =~= str_views(args@).subrange(1, 1));
    }
    while i < args.len()
        invariant
            1 <= i <= args@.len(),
            args@.len() >= 1,
            seq_views(toks@) == str_views(args@).subrange(1, i as int),
        decreases args.len() - i,
    {
        let ghost before = seq_views(toks@);
        toks.push(copy_bytes(args[i].as_bytes()));
        proof {
            assert(seq_views(toks@) =~= before.push(args@[i as int].spec_bytes()));
            assert(str_views(args@)[i as int] == args@[i as int].spec_bytes());
            assert(seq_views(toks@) =~= str_views(args@).subrange(1, i + 1));
        }
        i += 1;
    }
    proof {
        assert(str_views(args@).subrange(1, args@.len() as int) =~= str_views(args@).skip(1));
    }
    toks
}

/// The views of a sequence of serve-static entries.
pub open spec fn ss_views(s: Seq<ServeStaticConfig>) -> Seq<ServeStaticConfigV> {
    s.map_values(|c: ServeStaticConfig| c@)
}

/// The views of a sequence of proxy targets.
pub open spec fn pt_views(s: Seq<ProxyTarget>) -> Seq<ProxyTargetV> {
    s.map_values(|t: ProxyTarget| t@)
}

/// The whole startup configuration.
#[derive(Debug, PartialEq, Eq)]
pub struct Config {
    pub serve_static: Option<Vec<ServeStaticConfig>>,
    pub index: Option<Vec<u8>>,
    pub proxy: Vec<ProxyTarget>,
    pub trailing_paths: Vec<Vec<u8>>,
    pub port: Option<u16>,
}

/// Spec-level value of a `Config`.
#[verifier::ext_equal]
pub struct ConfigV {
    pub serve_static: Option<Seq<ServeStaticConfigV>>,
    pub index: Option<Seq<u8>>,
    pub proxy: Seq<ProxyTargetV>,
    pub trailing_paths: Seq<Seq<u8>>,
    pub port: Option<u16>,
}

impl View for Config {
    type V = ConfigV;

    open spec fn view(&self) -> ConfigV {
        ConfigV {
            serve_static: match self.serve_static {
                Some(ref v) => Some(ss_views(v@)),
                None => None,
            },
            index: match self.index {
                Some(ref v) => Some(v@),
                None => None,
            },
            proxy: pt_views(self.proxy@),
            trailing_paths: seq_views(self.trailing_paths@),
            port: self.port,
        }
    }
}

impl Default for Config {
    /// Nothing configured: no routes, no proxies, no port.
    fn default() -> (r: Config)
        ensures
            r@ == (ConfigV {
                serve_static: None,
                index: None,
                proxy: Seq::empty(),
                trailing_paths: Seq::empty(),
                port: None,
            }),
    {
        let r = Config {
            serve_static: None,
            index: None,
            proxy: Vec::new(),
            trailing_paths: Vec::new(),
            port: None,
        };
        proof {
            assert(r@ =~~= ConfigV {
                serve_static: None,
                index: None,
                proxy: Seq::empty(),
                trailing_paths: Seq::empty(),
                port: None,
            });
        }
        r
    }
}

/// The serve-static list an optional field holds, an absent field giving
/// none.
pub open spec fn ss_or_empty(o: Option<Seq<ServeStaticConfigV>>) -> Seq<ServeStaticConfigV> {
    match o {
        Some(l) => l,
        None => Seq::empty(),
    }
}

/// What parsing the configuration tokens (program name already removed)
/// yields. `--serve-static`, `--proxy` and `--port` each take the next
/// token as their value; serve-static entries and proxy targets
/// accumulate in order, the first `--index` and `--port` win, any other
/// `--` token is unknown, and everything else is a trailing path.
pub open spec fn spec_parse_config(toks: Seq<Seq<u8>>) -> Result<ConfigV, CliError>
    decreases toks.len(),
{
    if toks.len() == 0 {
        Ok(
            ConfigV {
                serve_static: None,
                index: None,
                proxy: Seq::empty(),
                trailing_paths: Seq::empty(),
                port: None,
            },
        )
    } else if toks[0] == "--serve-static".spec_bytes() {
        if toks.len() == 1 {
            Err(CliError::MissingValue)
        } else {
            match spec_ss_from_str(toks[1]) {
                Err(e) => Err(CliError::InvalidServeStatic(e)),
                Ok(c) => match spec_parse_config(toks.skip(2)) {
                    Err(e) => Err(e),
                    Ok(rest) => Ok(
                        ConfigV {
                            serve_static: Some(seq![c] + ss_or_empty(rest.serve_static)),
                            ..rest
                        },
                    ),
                },
            }
        }
    } else if toks[0] == "--index".spec_bytes() {
        if toks.len() == 1 {
            Err(CliError::MissingValue)
        } else {
            match spec_parse_config(toks.skip(2)) {
                Err(e) => Err(e),
                Ok(rest) => Ok(ConfigV { index: Some(toks[1]), ..rest }),
            }
        }
    } else if toks[0] == "--proxy".spec_bytes() {
        if toks.len() == 1 {
            Err(CliError::MissingValue)
        } else {
            match spec_target_from(toks[1]) {
                None => Err(CliError::InvalidProxy(ProxyError::InvalidTarget)),
                Some(t) => match spec_parse_config(toks.skip(2)) {
                    Err(e) => Err(e),
                    Ok(rest) => Ok(ConfigV { proxy: seq![t] + rest.proxy, ..rest }),
                },
            }
        }
    } else if toks[0] == "--port".spec_bytes() {
        if toks.len() == 1 {
            Err(CliError::MissingValue)
        } else {
            match spec_parse_u16(toks[1]) {
                None => Err(CliError::InvalidPort),
                Some(p) => match spec_parse_config(toks.skip(2)) {
                    Err(e) => Err(e),
                    Ok(rest) => Ok(ConfigV { port: Some(p), ..rest }),
                },
            }
        }
    } else if begins_with(toks[0], "--".spec_bytes()) {
        Err(CliError::UnknownFlag)
    } else {
        match spec_parse_config(toks.skip(1)) {
            Err(e) => Err(e),
            Ok(rest) => Ok(ConfigV { trailing_paths: seq![toks[0]] + rest.trailing_paths, ..rest }),
        }
    }
}

/// The serve-static entries a configuration asks for: one bare-directory
/// entry per trailing path, then whatever `--serve-static` gave, in
/// order.
pub open spec fn spec_ss_list(c: ConfigV) -> Seq<ServeStaticConfigV> {
    c.trailing_paths.map_values(|p: Seq<u8>| ServeStaticConfigV::DirOnly(p)) + ss_or_empty(
        c.serve_static,
    )
}

impl Config {
    /// Parse from position `i` of the token list (executable form of
    /// `spec_parse_config` on the remaining tokens).
    fn parse_from(toks: &Vec<Vec<u8>>, i: usize) -> (r: Result<Config, CliError>)
        requires
            i <= toks@.len(),
        ensures
            match r {
                Ok(c) => spec_parse_config(seq_views(toks@).skip(i as int)) == Ok::<_, CliError>(
                    c@,
                ),
                Err(e) => spec_parse_config(seq_views(toks@).skip(i as int)) == Err::<ConfigV, _>(
                    e,
                ),
            },
        decreases toks@.len() - i,
    {
        let ghost rest = seq_views(toks@).skip(i as int);
        if i >= toks.len() {
            proof {
                assert(rest =~= Seq::<Seq<u8>>::empty());
            }
            let c = Config {
                serve_static: None,
                index: None,
                proxy: Vec::new(),
                trailing_paths: Vec::new(),
                port: None,
            };
            proof {
                assert(c@ =~~= ConfigV {
                    serve_static: None,
                    index: None,
                    proxy: Seq::empty(),
                    trailing_paths: Seq::empty(),
                    port: None,
                });
            }
            return Ok(c);
        }
        proof {
            assert(rest[0] == toks@[i as int]@);
            if i + 1 < toks@.len() {
                assert(rest[1] == toks@[i + 1]@);
                assert(rest.skip(2) =~= seq_views(toks@).skip(i + 2));
            }
            assert(rest.skip(1) =~= seq_views(toks@).skip(i + 1));
        }
        if bytes_eq(toks[i].as_slice(), "--serve-static".as_bytes()) {
            if i + 1 >= toks.len() {
                return Err(CliError::MissingValue);
            }
            match ServeStaticConfig::from_str_bytes(toks[i + 1].as_slice()) {
                Err(e) => Err(CliError::InvalidServeStatic(e)),
                Ok(entry) => match Self::parse_from(toks, i + 2) {
                    Err(e) => Err(e),
                    Ok(tail) => {
                        let ghost tailv = tail@;
                        let ghost entryv = entry@;
                        let list = match tail.serve_static {
                            Some(mut v) => {
                                v.insert(0, entry);
                                v
                            },
                            None => {
                                let mut v: Vec<ServeStaticConfig> = Vec::new();
                                v.push(entry);
                                v
                            },
                        };
                        proof {
                            assert(ss_views(list@) =~= seq![entryv] + ss_or_empty(
                                tailv.serve_static,
                            ));
                        }
                        let c = Config { serve_static: Some(list), ..tail };
                        proof {
                            assert(c@ =~~= ConfigV {
                                serve_static: Some(seq![entryv] + ss_or_empty(tailv.serve_static)),
                                ..tailv
                            });
                        }
                        Ok(c)
                    },
                },
            }
        } else if bytes_eq(toks[i].as_slice(), "--index".as_bytes()) {
            if i + 1 >= toks.len() {
                return Err(CliError::MissingValue);
            }
            match Self::parse_from(toks, i + 2) {
                Err(e) => Err(e),
                Ok(tail) => {
                    let ghost tailv = tail@;
                    let c = Config { index: Some(copy_bytes(toks[i + 1].as_slice())), ..tail };
                    proof {
                        assert(c@ =~~= ConfigV { index: Some(rest[1]), ..tailv });
                    }
                    Ok(c)
                },
            }
        } else if bytes_eq(toks[i].as_slice(), "--proxy".as_bytes()) {
            if i + 1 >= toks.len() {
                return Err(CliError::MissingValue);
            }
            match ProxyTarget::from_str_bytes(toks[i + 1].as_slice()) {
                Err(e) => Err(CliError::InvalidProxy(e)),
                Ok(target) => match Self::parse_from(toks, i + 2) {
                    Err(e) => Err(e),
                    Ok(tail) => {
                        let ghost tailv = tail@;
                        let ghost targetv = target@;
                        let mut proxy = tail.proxy;
                        proxy.insert(0, target);
                        proof {
                            assert(pt_views(proxy@) =~= seq![targetv] + tailv.proxy);
                        }
                        let c = Config { proxy, ..tail };
                        proof {
                            assert(c@ =~~= ConfigV { proxy: seq![targetv] + tailv.proxy, ..tailv });
                        }
                        Ok(c)
                    },
                },
            }
        } else if bytes_eq(toks[i].as_slice(), "--port".as_bytes()) {
            if i + 1 >= toks.len() {
                return Err(CliError::MissingValue);
            }
            match parse_u16(toks[i + 1].as_slice()) {
                None => Err(CliError::InvalidPort),
                Some(p) => match Self::parse_from(toks, i + 2) {
                    Err(e) => Err(e),
                    Ok(tail) => {
                        let ghost tailv = tail@;
                        let c = Config { port: Some(p), ..tail };
                        proof {
                            assert(c@ =~~= ConfigV { port: Some(p), ..tailv });
                        }
                        Ok(c)
                    },
                },
            }
        } else if begins_with_exec(toks[i].as_slice(), "--".as_bytes()) {
            Err(CliError::UnknownFlag)
        } else {
            match Self::parse_from(toks, i + 1) {
                Err(e) => Err(e),
                Ok(tail) => {
                    let ghost tailv = tail@;
                    let mut trailing = tail.trailing_paths;
                    trailing.insert(0, copy_bytes(toks[i].as_slice()));
                    proof {
                        assert(seq_views(trailing@) =~= seq![rest[0]] + tailv.trailing_paths);
                    }
                    let c = Config { trailing_paths: trailing, ..tail };
                    proof {
                        assert(c@ =~~= ConfigV {
                            trailing_paths: seq![rest[0]] + tailv.trailing_paths,
                            ..tailv
                        });
                    }
                    Ok(c)
                },
            }
        }
    }

    /// Parse a full argument list, the program name first.
    pub fn from_iter_safe(args: &[&str]) -> (r: Result<Config, CliError>)
        ensures
            match r {
                Ok(c) => spec_parse_config(spec_cli_tokens(args@)) == Ok::<_, CliError>(c@),
                Err(e) => spec_parse_config(spec_cli_tokens(args@)) == Err::<ConfigV, _>(e),
            },
    {
        let toks = tokens_after_program(args);
        proof {
            assert(seq_views(toks@).skip(0) =~= seq_views(toks@));
        }
        Self::parse_from(&toks, 0)
    }

    /// Parse an argument list with no program name in front.
    pub fn from_all_args(args: &[&str]) -> (r: Result<Config, CliError>)
        ensures
            match r {
                Ok(c) => spec_parse_config(str_views(args@)) == Ok::<_, CliError>(c@),
                Err(e) => spec_parse_config(str_views(args@)) == Err::<ConfigV, _>(e),
            },
    {
        let mut toks: Vec<Vec<u8>> = Vec::new();
        let mut i: usize = 0;
        proof {
            assert(seq_views(toks@) =~= str_views(args@).take(0));
        }
        while i < args.len()
            invariant
                i <= args@.len(),
                seq_views(toks@) == str_views(args@).take(i as int),
            decreases args.len() - i,
        {
            let ghost before = seq_views(toks@);
            toks.push(copy_bytes(args[i].as_bytes()));
            proof {
                assert(seq_views(toks@) =~= before.push(args@[i as int].spec_bytes()));
                assert(str_views(args@)[i as int] == args@[i as int].spec_bytes());
                assert(seq_views(toks@) =~= str_views(args@).take(i + 1));
            }
            i += 1;
        }
        proof {
            assert(str_views(args@).take(args@.len() as int) =~= str_views(args@));
            assert(seq_views(toks@).skip(0) =~= seq_views(toks@));
        }
        Self::parse_from(&toks, 0)
    }

    /// The proxy targets, as configured.
    pub fn proxies(&self) -> (r: Vec<ProxyTarget>)
        ensures
            pt_views(r@) == self@.proxy,
    {
        let mut out: Vec<ProxyTarget> = Vec::new();
        let mut i: usize = 0;
        proof {
            assert(pt_views(out@) =~= self@.proxy.take(0));
        }
        while i < self.proxy.len()
            invariant
                i <= self.proxy.len(),
                pt_views(out@) == self@.proxy.take(i as int),
            decreases self.proxy.len() - i,
        {
            let t = &self.proxy[i];
            let mut paths: Vec<Vec<u8>> = Vec::new();
            let mut j: usize = 0;
            proof {
                assert(seq_views(paths@) =~= seq_views(t.paths@).take(0));
            }
            while j < t.paths.len()
                invariant
                    j <= t.paths.len(),
                    seq_views(paths@) == seq_views(t.paths@).take(j as int),
                decreases t.paths.len() - j,
            {
                let ghost before = seq_views(paths@);
                paths.push(copy_bytes(t.paths[j].as_slice()));
                proof {
                    assert(seq_views(paths@) =~= before.push(t.paths@[j as int]@));
                    assert(seq_views(t.paths@)[j as int] == t.paths@[j as int]@);
                    assert(seq_views(paths@) =~= seq_views(t.paths@).take(j + 1));
                }
                j += 1;
            }
            proof {
                assert(seq_views(t.paths@).take(t.paths@.len() as int) =~= seq_views(t.paths@));
            }
            let url = UrlParts {
                scheme: copy_bytes(t.target.scheme.as_slice()),
                host: match &t.target.host {
                    Some(h) => Some(copy_bytes(h.as_slice())),
                    None => None,
                },
                port: t.target.port,
                path: copy_bytes(t.target.path.as_slice()),
                query: match &t.target.query {
                    Some(q) => Some(copy_bytes(q.as_slice())),
                    None => None,
                },
            };
            let ghost before = pt_views(out@);
            let dup = ProxyTarget { target: url, paths };
            proof {
                assert(dup@ =~~= self.proxy@[i as int]@);
            }
            out.push(dup);
            proof {
                assert(pt_views(out@) =~= before.push(self.proxy@[i as int]@));
                assert(self@.proxy[i as int] == self.proxy@[i as int]@);
                assert(pt_views(out@) =~= self@.proxy.take(i + 1));
            }
            i += 1;
        }
        proof {
            assert(self@.proxy.take(self@.proxy.len() as int) =~= self@.proxy);
        }
        out
    }

    /// The serve-static entries this configuration asks for (executable
    /// form of `spec_ss_list`).
    pub fn serve_static_list(&self) -> (r: Vec<ServeStaticConfig>)
        ensures
            ss_views(r@) == spec_ss_list(self@),
    {
        let ghost first = self@.trailing_paths.map_values(
            |p: Seq<u8>| ServeStaticConfigV::DirOnly(p),
        );
        let mut out: Vec<ServeStaticConfig> = Vec::new();
        let mut i: usize = 0;
        proof {
            assert(ss_views(out@) =~= first.take(0));
        }
        while i < self.trailing_paths.len()
            invariant
                i <= self.trailing_paths.len(),
                first == self@.trailing_paths.map_values(
                    |p: Seq<u8>| ServeStaticConfigV::DirOnly(p),
                ),
                ss_views(out@) == first.take(i as int),
            decreases self.trailing_paths.len() - i,
        {
            let ghost before = ss_views(out@);
            out.push(
                ServeStaticConfig::DirOnly(
                    DirOnly { dir: copy_bytes(self.trailing_paths[i].as_slice()) },
                ),
            );
            proof {
                assert(self@.trailing_paths[i as int] == self.trailing_paths@[i as int]@);
                assert(ss_views(out@) =~= before.push(
                    ServeStaticConfigV::DirOnly(self@.trailing_paths[i as int]),
                ));
                assert(ss_views(out@) =~= first.take(i + 1));
            }
            i += 1;
        }
        proof {
            assert(first.take(first.len() as int) =~= first);
        }
        match &self.serve_static {
            None => {
                proof {
                    assert(ss_views(out@) =~= spec_ss_list(self@));
                }
                out
            },
            Some(given) => {
                let mut j: usize = 0;
                proof {
                    assert(ss_views(out@) =~= first + ss_views(given@).take(0));
                }
                while j < given.len()
                    invariant
                        j <= given.len(),
                        first == self@.trailing_paths.map_values(
                            |p: Seq<u8>| ServeStaticConfigV::DirOnly(p),
                        ),
                        self.serve_static matches Some(g) && g@ == given@,
                        ss_views(out@) == first + ss_views(given@).take(j as int),
                    decreases given.len() - j,
                {
                    let ghost before = ss_views(out@);
                    out.push(given[j].duplicate());
                    proof {
                        assert(ss_views(out@) =~= before.push(given@[j as int]@));
                        assert(ss_views(given@)[j as int] == given@[j as int]@);
                        assert(ss_views(out@) =~= first + ss_views(given@).take(j + 1));
                    }
                    j += 1;
                }
                proof {
                    assert(ss_views(given@).take(given@.len() as int) =~= ss_views(given@));
                    assert(ss_views(out@) =~= spec_ss_list(self@));
                }
                out
            },
        }
    }
}

impl ServeStatic for Config {
    /// One bare-directory entry per trailing path, then the
    /// `--serve-static` entries, in order.
    open spec fn spec_serve_static_config(&self) -> Seq<ServeStaticConfigV> {
        spec_ss_list(self@)
    }

    /// The serve-static entries this configuration asks for.
    fn serve_static_config(&self) -> (r: Vec<ServeStaticConfig>) {
        self.serve_static_list()
    }
}

} // verus!

