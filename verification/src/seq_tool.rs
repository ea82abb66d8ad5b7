//! Argument handling of the number-sequence printer.
//!
//! The tool prints numbers from a first to a last value; here lives the part
//! of its command line handling that decides things: recognising option
//! arguments and folding the option list into either a configuration, a
//! request for the help or version text, or an error.
use vstd::prelude::*;
use vstd::string::*;

use crate::chars::{alphabetic, char_is_alphabetic};

verus! {

/// Options of the number-sequence printer.
pub struct Options {
    /// Inserted between printed numbers.
    pub separator: String,
}

impl Options {
    /// The default options: numbers separated by a newline.
    pub fn new() -> (r: Options)
        ensures
            r.separator@ == seq!['\n'],
    {
        proof {
            reveal_strlit("\n");
            assert("\n"@ =~= seq!['\n']);
        }
        Options { separator: String::from_str("\n") }
    }
}

/// The view of an optional borrowed argument.
pub open spec fn opt_view(arg: Option<&String>) -> Option<Seq<char>> {
    match arg {
        Some(s) => Some(s@),
        None => None,
    }
}

/// What counts as an option argument: a dash followed by a letter, or a
/// double dash followed by a letter.
pub open spec fn spec_is_option(arg: Option<Seq<char>>) -> bool {
    match arg {
        Some(s) => {
            if s.len() >= 3 && s[0] == '-' && s[1] == '-' {
                alphabetic(s[2])
            } else if s.len() >= 2 && s[0] == '-' {
                alphabetic(s[1])
            } else {
                false
            }
        },
        None => false,
    }
}

/// Decide whether an argument is an option argument.
pub fn is_option(arg: Option<&String>) -> (r: bool)
    ensures
        r == spec_is_option(opt_view(arg)),
{
    match arg {
        None => false,
        Some(s) => {
            let st = s.as_str();
            let n = st.unicode_len();
            if n >= 3 && st.get_char(0) == '-' && st.get_char(1) == '-' {
                char_is_alphabetic(st.get_char(2))
            } else if n >= 2 && st.get_char(0) == '-' {
                char_is_alphabetic(st.get_char(1))
            } else {
                false
            }
        },
    }
}

/// What a run of option arguments asks for: run with the given separator,
/// or print the help or version text and stop.
pub enum SeqAction {
    Run(Options),
    Help,
    Version,
}

/// Mathematical image of `SeqAction`.
pub enum ActionModel {
    Run(Seq<char>),
    Help,
    Version,
}

impl View for SeqAction {
    type V = ActionModel;

    open spec fn view(&self) -> ActionModel {
        match self {
            SeqAction::Run(o) => ActionModel::Run(o.separator@),
            SeqAction::Help => ActionModel::Help,
            SeqAction::Version => ActionModel::Version,
        }
    }
}

/// Why an option list was rejected.
#[derive(Debug)]
pub enum SeqError {
    /// A separator option came last, with no value after it.
    MissingSeparatorValue,
    /// An option argument that is none of the known options; carries the
    /// argument itself.
    UnknownOption(String),
}

/// Mathematical image of `SeqError`.
pub enum SeqErrorModel {
    MissingSeparatorValue,
    UnknownOption(Seq<char>),
}

impl View for SeqError {
    type V = SeqErrorModel;

    open spec fn view(&self) -> SeqErrorModel {
        match self {
            SeqError::MissingSeparatorValue => SeqErrorModel::MissingSeparatorValue,
            SeqError::UnknownOption(s) => SeqErrorModel::UnknownOption(s@),
        }
    }
}

/// Folding the option arguments from position `i` on, with `sep` the
/// separator chosen so far: consume options until the first argument that is
/// not one, and return the action together with the position where the
/// positional arguments begin.
pub open spec fn spec_parse_options(args: Seq<Seq<char>>, i: int, sep: Seq<char>) -> Result<
    (ActionModel, int),
    SeqErrorModel,
>
    decreases args.len() - i,
    when 0 <= i <= args.len()
{
    if i >= args.len() || !spec_is_option(Some(args[i])) {
        Ok((ActionModel::Run(sep), i))
    } else if args[i] == "-s"@ || args[i] == "--separator"@ {
        if i + 1 < args.len() {
            spec_parse_options(args, i + 2, args[i + 1])
        } else {
            Err(SeqErrorModel::MissingSeparatorValue)
        }
    } else if args[i] == "-h"@ || args[i] == "--help"@ {
        Ok((ActionModel::Help, i + 1))
    } else if args[i] == "-V"@ || args[i] == "--version"@ {
        Ok((ActionModel::Version, i + 1))
    } else {
        Err(SeqErrorModel::UnknownOption(args[i]))
    }
}

/// Consume the leading option arguments of `args`. On success the returned
/// position is where the positional arguments begin; `Help` and `Version`
/// mean the run stops after printing the respective text.
pub fn parse_options(args: &Vec<String>) -> (r: Result<(SeqAction, usize), SeqError>)
    ensures
        match r {
            Ok(p) => spec_parse_options(args.deep_view(), 0, "\n"@) == Ok::<
                (ActionModel, int),
                SeqErrorModel,
            >((p.0@, p.1 as int)) && p.1 <= args@.len(),
            Err(e) => spec_parse_options(args.deep_view(), 0, "\n"@) == Err::<
                (ActionModel, int),
                SeqErrorModel,
            >(e@),
        },
{
    let ghost dv = args.deep_view();
    let mut sep = String::from_str("\n");
    let mut i: usize = 0;
    loop
        invariant
            i <= args@.len(),
            dv == args.deep_view(),
            dv.len() == args@.len(),
            spec_parse_options(dv, 0, "\n"@) == spec_parse_options(dv, i as int, sep@),
        decreases args@.len() - i,
    {
        let peek: Option<&String> = if i < args.len() {
            Some(&args[i])
        } else {
            None
        };
        proof {
            if i < args@.len() {
                assert(dv[i as int] == args@[i as int]@);
            }
        }
        if !is_option(peek) {
            return Ok((SeqAction::Run(Options { separator: sep }), i));
        }
        let a = &args[i];
        if *a == String::from_str("-s") || *a == String::from_str("--separator") {
            if i + 1 < args.len() {
                proof {
                    assert(dv[i as int + 1] == args@[i as int + 1]@);
                }
                sep = args[i + 1].clone();
                i = i + 2;
            } else {
                return Err(SeqError::MissingSeparatorValue);
            }
        } else if *a == String::from_str("-h") || *a == String::from_str("--help") {
            return Ok((SeqAction::Help, i + 1));
        } else if *a == String::from_str("-V") || *a == String::from_str("--version") {
            return Ok((SeqAction::Version, i + 1));
        } else {
            return Err(SeqError::UnknownOption(a.clone()));
        }
    }
}

} // verus!
