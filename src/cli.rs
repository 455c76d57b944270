//! The command line of a search run, as a pure function of the arguments.
use vstd::prelude::*;
use crate::pipeline::Mode;
use crate::text::str_eq;

verus! {

/// An option that takes a value.
#[derive(Debug, Clone, Copy, PartialEq, Eq, Structural)]
pub enum Flag {
    Dir,
    Out,
    Bool,
    Cporrm,
    Folder,
}

/// Run parameters as given on the command line; paths left unset take
/// their defaults from the working directory.
pub struct Options {
    pub dir: Option<String>,
    pub out: Option<String>,
    pub recursive: bool,
    pub query: String,
    pub mode: Mode,
    pub folder: Option<String>,
}

/// What the command line asks for.
pub enum Command {
    Help,
    Run(Options),
}

/// Why a command line was refused.
pub enum ArgError {
    /// The flag is the last argument and has no value.
    MissingValue(Flag),
    /// An argument that is not an option.
    UnknownOption(String),
    /// `--bool` was not given.
    MissingQuery,
    /// `--cporrm` was neither `copy` nor `remove`.
    InvalidMode,
}

pub ghost struct OptionsView {
    pub dir: Option<Seq<char>>,
    pub out: Option<Seq<char>>,
    pub recursive: bool,
    pub query: Seq<char>,
    pub mode: Mode,
    pub folder: Option<Seq<char>>,
}

pub ghost enum CommandView {
    Help,
    Run(OptionsView),
}

pub ghost enum ArgErrorView {
    MissingValue(Flag),
    UnknownOption(Seq<char>),
    MissingQuery,
    InvalidMode,
}

/// Options collected so far while reading the arguments.
pub ghost struct ArgState {
    pub dir: Option<Seq<char>>,
    pub out: Option<Seq<char>>,
    pub recursive: bool,
    pub query: Option<Seq<char>>,
    pub mode: Option<Seq<char>>,
    pub folder: Option<Seq<char>>,
}

pub open spec fn opt_view(o: Option<String>) -> Option<Seq<char>> {
    match o {
        Some(s) => Some(s@),
        None => None,
    }
}

pub open spec fn command_result_view(r: Result<Command, ArgError>) -> Result<CommandView, ArgErrorView> {
    match r {
        Ok(Command::Help) => Ok(CommandView::Help),
        Ok(Command::Run(o)) => Ok(
            CommandView::Run(
                OptionsView {
                    dir: opt_view(o.dir),
                    out: opt_view(o.out),
                    recursive: o.recursive,
                    query: o.query@,
                    mode: o.mode,
                    folder: opt_view(o.folder),
                },
            ),
        ),
        Err(ArgError::MissingValue(f)) => Err(ArgErrorView::MissingValue(f)),
        Err(ArgError::UnknownOption(a)) => Err(ArgErrorView::UnknownOption(a@)),
        Err(ArgError::MissingQuery) => Err(ArgErrorView::MissingQuery),
        Err(ArgError::InvalidMode) => Err(ArgErrorView::InvalidMode),
    }
}

/// The value flag that `a` names, if any.
pub open spec fn flag_of(a: Seq<char>) -> Option<Flag> {
    if a == "--dir"@ {
        Some(Flag::Dir)
    } else if a == "--out"@ {
        Some(Flag::Out)
    } else if a == "--bool"@ {
        Some(Flag::Bool)
    } else if a == "--cporrm"@ {
        Some(Flag::Cporrm)
    } else if a == "--folder"@ {
        Some(Flag::Folder)
    } else {
        None
    }
}

/// The state after flag `f` is given value `v`; a later value wins.
pub open spec fn set_flag(st: ArgState, f: Flag, v: Seq<char>) -> ArgState {
    match f {
        Flag::Dir => ArgState { dir: Some(v), ..st },
        Flag::Out => ArgState { out: Some(v), ..st },
        Flag::Bool => ArgState { query: Some(v), ..st },
        Flag::Cporrm => ArgState { mode: Some(v), ..st },
        Flag::Folder => ArgState { folder: Some(v), ..st },
    }
}

/// The command once all arguments are read: the query is required, and the
/// mode (default `copy`) must be `copy` or `remove`.
pub open spec fn finish_spec(st: ArgState) -> Result<CommandView, ArgErrorView> {
    match st.query {
        None => Err(ArgErrorView::MissingQuery),
        Some(q) => {
            let m = match st.mode {
                Some(m) => m,
                None => "copy"@,
            };
            if m == "copy"@ || m == "remove"@ {
                Ok(
                    CommandView::Run(
                        OptionsView {
                            dir: st.dir,
                            out: st.out,
                            recursive: st.recursive,
                            query: q,
                            mode: if m == "copy"@ {
                                Mode::Copy
                            } else {
                                Mode::Move
                            },
                            folder: st.folder,
                        },
                    ),
                )
            } else {
                Err(ArgErrorView::InvalidMode)
            }
        },
    }
}

/// Reads the arguments from position `i` on, left to right: `--help` stops
/// at once, an unknown argument or a flag without value is an error.
pub open spec fn args_from(args: Seq<Seq<char>>, i: int, st: ArgState) -> Result<CommandView, ArgErrorView>
    decreases args.len() - i,
{
    if i < 0 || i >= args.len() {
        finish_spec(st)
    } else {
        let a = args[i];
        match flag_of(a) {
            Some(f) => if i + 1 < args.len() {
                args_from(args, i + 2, set_flag(st, f, args[i + 1]))
            } else {
                Err(ArgErrorView::MissingValue(f))
            },
            None => if a == "--recursive"@ {
                args_from(args, i + 1, ArgState { recursive: true, ..st })
            } else if a == "--help"@ {
                Ok(CommandView::Help)
            } else {
                Err(ArgErrorView::UnknownOption(a))
            },
        }
    }
}

pub open spec fn parse_args_spec(args: Seq<Seq<char>>) -> Result<CommandView, ArgErrorView> {
    args_from(
        args,
        0,
        ArgState { dir: None, out: None, recursive: false, query: None, mode: None, folder: None },
    )
}

pub open spec fn arg_views(args: Seq<String>) -> Seq<Seq<char>> {
    args.map_values(|s: String| s@)
}

fn flag_named(a: &str) -> (r: Option<Flag>)
    ensures
        r == flag_of(a@),
{
    proof {
        reveal_strlit("--dir");
        reveal_strlit("--out");
        reveal_strlit("--bool");
        reveal_strlit("--cporrm");
        reveal_strlit("--folder");
    }
    if str_eq(a, "--dir") {
        Some(Flag::Dir)
    } else if str_eq(a, "--out") {
        Some(Flag::Out)
    } else if str_eq(a, "--bool") {
        Some(Flag::Bool)
    } else if str_eq(a, "--cporrm") {
        Some(Flag::Cporrm)
    } else if str_eq(a, "--folder") {
        Some(Flag::Folder)
    } else {
        None
    }
}

/// Reads the command line (without the program name).
pub fn parse_args(args: &Vec<String>) -> (r: Result<Command, ArgError>)
    ensures
        command_result_view(r) == parse_args_spec(arg_views(args@)),
{
    let ghost av = arg_views(args@);
    let mut dir: Option<String> = None;
    let mut out: Option<String> = None;
    let mut recursive = false;
    let mut query: Option<String> = None;
    let mut mode: Option<String> = None;
    let mut folder: Option<String> = None;
    let mut i: usize = 0;
    while i < args.len()
        invariant
            av == arg_views(args@),
            i <= args@.len(),
            args_from(av, i as int, ArgState {
                dir: opt_view(dir),
                out: opt_view(out),
                recursive,
                query: opt_view(query),
                mode: opt_view(mode),
                folder: opt_view(folder),
            }) == parse_args_spec(av),
        decreases args@.len() - i,
    {
        let a = args[i].as_str();
        assert(av[i as int] == a@);
        match flag_named(a) {
            Some(f) => {
                if i + 1 >= args.len() {
                    return Err(ArgError::MissingValue(f));
                }
                let v = args[i + 1].clone();
                assert(av[i + 1] == v@);
                match f {
                    Flag::Dir => dir = Some(v),
                    Flag::Out => out = Some(v),
                    Flag::Bool => query = Some(v),
                    Flag::Cporrm => mode = Some(v),
                    Flag::Folder => folder = Some(v),
                }
                i = i + 2;
            },
            None => {
                proof {
                    reveal_strlit("--recursive");
                    reveal_strlit("--help");
                }
                if str_eq(a, "--recursive") {
                    recursive = true;
                    i = i + 1;
                } else if str_eq(a, "--help") {
                    return Ok(Command::Help);
                } else {
                    return Err(ArgError::UnknownOption(args[i].clone()));
                }
            },
        }
    }
    let q = match query {
        Some(q) => q,
        None => return Err(ArgError::MissingQuery),
    };
    proof {
        reveal_strlit("copy");
        reveal_strlit("remove");
    }
    let m = match mode {
        Some(m) => {
            if str_eq(m.as_str(), "copy") {
                Mode::Copy
            } else if str_eq(m.as_str(), "remove") {
                Mode::Move
            } else {
                return Err(ArgError::InvalidMode);
            }
        },
        None => Mode::Copy,
    };
    Ok(Command::Run(Options { dir, out, recursive, query: q, mode: m, folder }))
}

/// A file is searched when its extension is `pdf` in any ASCII case.
pub open spec fn is_pdf_extension_spec(ext: Seq<char>) -> bool {
    &&& ext.len() == 3
    &&& (ext[0] == 'p' || ext[0] == 'P')
    &&& (ext[1] == 'd' || ext[1] == 'D')
    &&& (ext[2] == 'f' || ext[2] == 'F')
}

/// Whether a file extension selects the file for the search.
pub fn is_pdf_extension(ext: &str) -> (r: bool)
    ensures
        r == is_pdf_extension_spec(ext@),
{
    if ext.unicode_len() != 3 {
        return false;
    }
    let c0 = ext.get_char(0);
    let c1 = ext.get_char(1);
    let c2 = ext.get_char(2);
    (c0 == 'p' || c0 == 'P') && (c1 == 'd' || c1 == 'D') && (c2 == 'f' || c2 == 'F')
}

} // verus!
