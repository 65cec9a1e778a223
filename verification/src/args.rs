//! The command line: `[-h|--help] [-V|--version] [--] [FILE]`.

use vstd::prelude::*;
use vstd::string::*;

use crate::text::views;

verus! {

/// What the program was asked to do.
#[derive(Debug)]
pub enum StartupMode {
    /// Edit a file, or an unnamed buffer.
    Open(Option<String>),
    Help,
    Version,
}

pub enum StartupView {
    Open(Option<Seq<char>>),
    Help,
    Version,
}

impl View for StartupMode {
    type V = StartupView;

    open spec fn view(&self) -> StartupView {
        match self {
            StartupMode::Open(Some(p)) => StartupView::Open(Some(p@)),
            StartupMode::Open(None) => StartupView::Open(None),
            StartupMode::Help => StartupView::Help,
            StartupMode::Version => StartupView::Version,
        }
    }
}

pub open spec fn unknown_option_message(arg: Seq<char>, program: Seq<char>) -> Seq<char> {
    "Unknown option: "@ + arg + "\nTry '"@ + program + " --help'"@
}

pub open spec fn too_many_message(program: Seq<char>) -> Seq<char> {
    "Too many arguments\nUsage: "@ + program + " [FILE]"@
}

/// The outcome of reading `args[i..]`, where `flags` says whether options
/// are still recognised and `positional` holds the file name seen so far.
pub open spec fn parse_from(
    program: Seq<char>,
    args: Seq<Seq<char>>,
    i: int,
    flags: bool,
    positional: Option<Seq<char>>,
) -> Result<StartupView, Seq<char>>
    decreases args.len() - i,
{
    if i < 0 || i >= args.len() {
        Ok(StartupView::Open(positional))
    } else {
        let a = args[i];
        if flags && (a == "-h"@ || a == "--help"@) {
            Ok(StartupView::Help)
        } else if flags && (a == "-V"@ || a == "--version"@) {
            Ok(StartupView::Version)
        } else if flags && a == "--"@ {
            parse_from(program, args, i + 1, false, positional)
        } else if flags && a.len() > 0 && a[0] == '-' {
            Err(unknown_option_message(a, program))
        } else if positional is Some {
            Err(too_many_message(program))
        } else {
            parse_from(program, args, i + 1, flags, Some(a))
        }
    }
}

/// The outcome of reading the command line `args` (the program name first).
pub open spec fn parse_command_line(args: Seq<Seq<char>>) -> Result<StartupView, Seq<char>> {
    let program = if args.len() > 0 {
        args[0]
    } else {
        "ultranano"@
    };
    parse_from(program, args, 1, true, None)
}

/// Whether `a` and `b` hold the same characters.
fn same_text(a: &str, b: &str) -> (r: bool)
    ensures
        r == (a@ == b@),
{
    let n = a.unicode_len();
    if n != b.unicode_len() {
        return false;
    }
    let mut i: usize = 0;
    while i < n
        invariant
            n == a@.len(),
            n == b@.len(),
            i <= n,
            forall|j: int| 0 <= j < i ==> a@[j] == b@[j],
        decreases n - i,
    {
        if a.get_char(i) != b.get_char(i) {
            return false;
        }
        i = i + 1;
    }
    assert(a@ =~= b@);
    true
}


/// Reads the command line `args`, the program name first.
pub fn parse_args(args: Vec<String>) -> (r: Result<StartupMode, String>)
    ensures
        match r {
            Ok(m) => parse_command_line(views(args@)) == Ok::<StartupView, Seq<char>>(m@),
            Err(e) => parse_command_line(views(args@)) == Err::<StartupView, Seq<char>>(e@),
        },
{
    let ghost a = views(args@);
    let program = if args.len() > 0 {
        args[0].clone()
    } else {
        String::from_str("ultranano")
    };
    let mut positional: Option<String> = None;
    let mut parsing_flags = true;
    let mut i: usize = 1;
    while i < args.len()
        invariant
            a == views(args@),
            1 <= i,
            parse_command_line(a) == parse_from(
                program@,
                a,
                i as int,
                parsing_flags,
                match positional {
                    Some(p) => Some(p@),
                    None => None,
                },
            ),
        decreases args@.len() - i,
    {
        let arg = args[i].as_str();
        if parsing_flags {
            if same_text(arg, "-h") || same_text(arg, "--help") {
                return Ok(StartupMode::Help);
            }
            if same_text(arg, "-V") || same_text(arg, "--version") {
                return Ok(StartupMode::Version);
            }
            if same_text(arg, "--") {
                parsing_flags = false;
                i = i + 1;
                continue;
            }
            if arg.unicode_len() > 0 && arg.get_char(0) == '-' {
                let mut m = String::from_str("Unknown option: ");
                m.append(arg);
                m.append("\nTry '");
                m.append(program.as_str());
                m.append(" --help'");
                return Err(m);
            }
        }
        if positional.is_some() {
            let mut m = String::from_str("Too many arguments\nUsage: ");
            m.append(program.as_str());
            m.append(" [FILE]");
            return Err(m);
        }
        positional = Some(args[i].clone());
        i = i + 1;
    }
    Ok(StartupMode::Open(positional))
}

} // verus!
