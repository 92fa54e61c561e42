//! The command line of the build helper: `xtask install [--client]
//! [--code-bin <name>] [--server]`.
//!
//! Arguments are read from left to right. An argument that starts with `-`
//! is a flag, until a lone `--` makes every later argument positional. The
//! first positional argument must name the subcommand.

use vstd::prelude::*;
use vstd::string::{StrSliceExecFns, StringExecFns};

verus! {

/// The parsed command line.
#[derive(Debug, PartialEq, Eq)]
pub struct Xtask {
    pub subcommand: XtaskCmd,
}

#[derive(Debug, PartialEq, Eq)]
pub enum XtaskCmd {
    Install(Install),
}

/// Install the language server, the editor plugin, or both.
#[derive(Debug, PartialEq, Eq)]
pub struct Install {
    /// Install only the editor plugin.
    pub client: bool,
    /// The editor binary to install the plugin with.
    pub code_bin: Option<String>,
    /// Install only the language server.
    pub server: bool,
}

/// How the editor plugin is to be installed.
#[derive(Debug, PartialEq, Eq)]
pub struct ClientOpt {
    pub code_bin: Option<String>,
}

/// Why a command line was not accepted.
#[derive(Debug, PartialEq, Eq)]
pub enum FlagsError {
    /// `-h` or `--help` was given.
    Help,
    /// A flag that the command does not have.
    UnexpectedFlag(String),
    /// A positional argument where none is taken.
    UnexpectedArgument(String),
    /// The flag takes a value, and the command line ended before it.
    MissingValue(String),
    /// A flag that may be given once was given again.
    Repeated(String),
    /// No subcommand was named.
    SubcommandRequired,
}

/// What the process is to do instead of running a command: print the
/// error and end with `status`.
#[derive(Debug, PartialEq, Eq)]
pub struct Exit {
    pub error: FlagsError,
    pub status: u8,
}

pub struct InstallView {
    pub client: bool,
    pub code_bin: Option<Seq<char>>,
    pub server: bool,
}

pub enum FlagsErrorView {
    Help,
    UnexpectedFlag(Seq<char>),
    UnexpectedArgument(Seq<char>),
    MissingValue(Seq<char>),
    Repeated(Seq<char>),
    SubcommandRequired,
}

impl View for Install {
    type V = InstallView;

    open spec fn view(&self) -> InstallView {
        InstallView {
            client: self.client,
            code_bin: match self.code_bin {
                Some(name) => Some(name@),
                None => None,
            },
            server: self.server,
        }
    }
}

impl View for Xtask {
    type V = InstallView;

    open spec fn view(&self) -> InstallView {
        match self.subcommand {
            XtaskCmd::Install(install) => install@,
        }
    }
}

impl View for FlagsError {
    type V = FlagsErrorView;

    open spec fn view(&self) -> FlagsErrorView {
        match self {
            FlagsError::Help => FlagsErrorView::Help,
            FlagsError::UnexpectedFlag(flag) => FlagsErrorView::UnexpectedFlag(flag@),
            FlagsError::UnexpectedArgument(arg) => FlagsErrorView::UnexpectedArgument(arg@),
            FlagsError::MissingValue(flag) => FlagsErrorView::MissingValue(flag@),
            FlagsError::Repeated(flag) => FlagsErrorView::Repeated(flag@),
            FlagsError::SubcommandRequired => FlagsErrorView::SubcommandRequired,
        }
    }
}

/// What has been read of a command line so far.
pub struct Scan {
    /// The subcommand has been named.
    pub installing: bool,
    /// A lone `--` has been read.
    pub literal: bool,
    /// How often `--client` was given.
    pub client: nat,
    /// The values given for `--code-bin`, in order.
    pub code_bin: Seq<Seq<char>>,
    /// How often `--server` was given.
    pub server: nat,
}

/// The arguments as sequences of characters.
pub open spec fn arg_views(args: Seq<String>) -> Seq<Seq<char>> {
    args.map_values(|arg: String| arg@)
}

/// An argument that starts with `-`.
pub open spec fn dashed(arg: Seq<char>) -> bool {
    arg.len() > 0 && arg[0] == '-'
}

/// Nothing read yet.
pub open spec fn scan_start() -> Scan {
    Scan { installing: false, literal: false, client: 0, code_bin: Seq::empty(), server: 0 }
}

/// Reads the arguments from index `at` on. The only positional argument
/// taken is the subcommand's name.
pub open spec fn scan(args: Seq<Seq<char>>, at: int, st: Scan) -> Result<Scan, FlagsErrorView>
    decreases args.len() - at,
{
    if at < 0 || at >= args.len() {
        Ok(st)
    } else if st.literal || !dashed(args[at]) {
        if !st.installing && args[at] == "install"@ {
            scan(args, at + 1, Scan { installing: true, ..st })
        } else {
            Err(FlagsErrorView::UnexpectedArgument(args[at]))
        }
    } else if args[at] == "--"@ {
        scan(args, at + 1, Scan { literal: true, ..st })
    } else if args[at] == "--help"@ || args[at] == "-h"@ {
        Err(FlagsErrorView::Help)
    } else if st.installing && args[at] == "--client"@ {
        scan(args, at + 1, Scan { client: st.client + 1, ..st })
    } else if st.installing && args[at] == "--code-bin"@ {
        if at + 1 >= args.len() {
            Err(FlagsErrorView::MissingValue(args[at]))
        } else {
            scan(args, at + 2, Scan { code_bin: st.code_bin.push(args[at + 1]), ..st })
        }
    } else if st.installing && args[at] == "--server"@ {
        scan(args, at + 1, Scan { server: st.server + 1, ..st })
    } else {
        Err(FlagsErrorView::UnexpectedFlag(args[at]))
    }
}

/// The command that a completely read command line stands for.
pub open spec fn conclude(st: Scan) -> Result<InstallView, FlagsErrorView> {
    if !st.installing {
        Err(FlagsErrorView::SubcommandRequired)
    } else if st.client > 1 {
        Err(FlagsErrorView::Repeated("--client"@))
    } else if st.code_bin.len() > 1 {
        Err(FlagsErrorView::Repeated("--code-bin"@))
    } else if st.server > 1 {
        Err(FlagsErrorView::Repeated("--server"@))
    } else {
        Ok(
            InstallView {
                client: st.client == 1,
                code_bin: if st.code_bin.len() == 1 {
                    Some(st.code_bin[0])
                } else {
                    None
                },
                server: st.server == 1,
            },
        )
    }
}

/// The arguments behind the program's name.
pub open spec fn behind_program(args: Seq<Seq<char>>) -> Seq<Seq<char>> {
    if args.len() == 0 {
        args
    } else {
        args.skip(1)
    }
}

/// The meaning of a command line, without the program's name.
pub open spec fn parse_args(args: Seq<Seq<char>>) -> Result<InstallView, FlagsErrorView> {
    match scan(args, 0, scan_start()) {
        Ok(st) => conclude(st),
        Err(e) => Err(e),
    }
}

/// `res` is the parse of `args`.
pub open spec fn parses_to(args: Seq<Seq<char>>, res: Result<Xtask, FlagsError>) -> bool {
    match parse_args(args) {
        Ok(install) => res matches Ok(xtask) && xtask@ == install,
        Err(error) => res matches Err(e) && e@ == error,
    }
}

/// The status with which the process ends on `error`: asking for help is
/// no failure.
pub open spec fn exit_status(error: FlagsErrorView) -> u8 {
    if error is Help {
        0
    } else {
        2
    }
}

fn is(arg: &String, text: &str) -> (same: bool)
    ensures
        same == (arg@ == text@),
{
    let text = String::from_str(text);
    *arg == text
}

fn is_dashed(arg: &String) -> (b: bool)
    ensures
        b == dashed(arg@),
{
    arg.as_str().unicode_len() > 0 && arg.as_str().get_char(0) == '-'
}

impl Xtask {
    /// Reads the command line of the process, of which the first argument
    /// is the program's name. A command line that cannot be used becomes
    /// the exit that the process owes its caller.
    pub fn from_env_or_exit(args: Vec<String>) -> (res: Result<Xtask, Exit>)
        ensures
            match parse_args(behind_program(arg_views(args@))) {
                Ok(install) => res matches Ok(xtask) && xtask@ == install,
                Err(error) => res matches Err(exit) && exit.error@ == error && exit.status
                    == exit_status(error),
            },
    {
        match Xtask::from_env(args) {
            Ok(xtask) => Ok(xtask),
            Err(error) => {
                let status: u8 = match error {
                    FlagsError::Help => 0,
                    _ => 2,
                };
                Err(Exit { error, status })
            },
        }
    }

    /// Reads the command line of the process, of which the first argument
    /// is the program's name.
    pub fn from_env(args: Vec<String>) -> (res: Result<Xtask, FlagsError>)
        ensures
            parses_to(behind_program(arg_views(args@)), res),
    {
        let mut args = args;
        if args.len() > 0 {
            let ghost all = args@;
            args.remove(0);
            assert(arg_views(args@) =~= arg_views(all).skip(1));
        }
        Xtask::from_vec(args)
    }

    /// Reads a command line without the program's name.
    pub fn from_vec(args: Vec<String>) -> (res: Result<Xtask, FlagsError>)
        ensures
            parses_to(arg_views(args@), res),
    {
        let ghost all = arg_views(args@);
        let mut installing = false;
        let mut literal = false;
        let mut client: usize = 0;
        let mut server: usize = 0;
        let mut code_bin: Vec<String> = Vec::new();
        let mut at: usize = 0;
        assert(arg_views(code_bin@) =~= Seq::empty());
        while at < args.len()
            invariant
                all == arg_views(args@),
                at <= args.len(),
                client <= at,
                server <= at,
                scan(all, 0, scan_start()) == scan(
                    all,
                    at as int,
                    Scan {
                        installing,
                        literal,
                        client: client as nat,
                        code_bin: arg_views(code_bin@),
                        server: server as nat,
                    },
                ),
            decreases args.len() - at,
        {
            let ghost st = Scan {
                installing,
                literal,
                client: client as nat,
                code_bin: arg_views(code_bin@),
                server: server as nat,
            };
            let arg = &args[at];
            assert(arg@ == all[at as int]);
            if literal || !is_dashed(arg) {
                if !installing && is(arg, "install") {
                    installing = true;
                    at += 1;
                } else {
                    return Err(FlagsError::UnexpectedArgument(arg.clone()));
                }
            } else if is(arg, "--") {
                literal = true;
                at += 1;
            } else if is(arg, "--help") || is(arg, "-h") {
                return Err(FlagsError::Help);
            } else if installing && is(arg, "--client") {
                client += 1;
                at += 1;
            } else if installing && is(arg, "--code-bin") {
                if at + 1 >= args.len() {
                    return Err(FlagsError::MissingValue(arg.clone()));
                }
                assert(args@[at + 1]@ == all[at + 1]);
                code_bin.push(args[at + 1].clone());
                assert(arg_views(code_bin@) =~= st.code_bin.push(all[at + 1]));
                at += 2;
            } else if installing && is(arg, "--server") {
                server += 1;
                at += 1;
            } else {
                return Err(FlagsError::UnexpectedFlag(arg.clone()));
            }
        }
        if !installing {
            return Err(FlagsError::SubcommandRequired);
        }
        if client > 1 {
            return Err(FlagsError::Repeated(String::from_str("--client")));
        }
        if code_bin.len() > 1 {
            return Err(FlagsError::Repeated(String::from_str("--code-bin")));
        }
        if server > 1 {
            return Err(FlagsError::Repeated(String::from_str("--server")));
        }
        let name = code_bin.pop();
        Ok(
            Xtask {
                subcommand: XtaskCmd::Install(
                    Install { client: client == 1, code_bin: name, server: server == 1 },
                ),
            },
        )
    }
}

impl Install {
    /// Whether the language server is to be installed: always, unless only
    /// the editor plugin was asked for.
    pub fn server(&self) -> (res: Option<()>)
        ensures
            res is None <==> self.client && !self.server,
    {
        if self.client && !self.server {
            return None;
        }
        Some(())
    }

    /// How the editor plugin is to be installed, if it is: always, unless
    /// only the language server was asked for.
    pub fn client(&self) -> (res: Option<ClientOpt>)
        ensures
            res is None <==> !self.client && self.server,
            res matches Some(opt) ==> opt.code_bin == self.code_bin,
    {
        if !self.client && self.server {
            return None;
        }
        let code_bin = match &self.code_bin {
            Some(name) => Some(name.clone()),
            None => None,
        };
        Some(ClientOpt { code_bin })
    }
}

} // verus!
