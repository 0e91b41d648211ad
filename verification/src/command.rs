//! The operator command surface: one command per whitespace-tokenized input
//! line. Unrecognized input parses to `None` and is retryable; it never ends
//! the session.

use vstd::prelude::*;

use crate::parse::{parse_address, parse_u64_radix, spec_parse_address, spec_parse_radix};

verus! {

/// A parsed operator command.
pub enum Command {
    /// `run [args...]`: start or restart the target and resume it.
    Run(Vec<String>),
    /// `continue` / `c`: resume the current process.
    Cont,
    /// `backtrace` / `bt`: report the current call stack.
    Backtrace,
    /// `breakpoint <loc>` / `b` / `break`: add a breakpoint.
    Breakpoint(String),
    /// `quit` / `q`: terminate any running process and leave.
    Quit,
}

/// The mathematical shape of a `Command`: every string as a `Seq<char>`.
pub enum CommandModel {
    Run(Seq<Seq<char>>),
    Cont,
    Backtrace,
    Breakpoint(Seq<char>),
    Quit,
}

/// The views of a sequence of strings.
pub open spec fn views_of_strings(s: Seq<String>) -> Seq<Seq<char>> {
    s.map_values(|t: String| t@)
}

impl View for Command {
    type V = CommandModel;

    open spec fn view(&self) -> CommandModel {
        match self {
            Command::Run(args) => CommandModel::Run(views_of_strings(args@)),
            Command::Cont => CommandModel::Cont,
            Command::Backtrace => CommandModel::Backtrace,
            Command::Breakpoint(loc) => CommandModel::Breakpoint(loc@),
            Command::Quit => CommandModel::Quit,
        }
    }
}

/// What a token sequence parses to: `run` takes the remaining tokens as
/// target arguments, `breakpoint` takes exactly one location token, and the
/// other commands take none. Anything else is unrecognized.
pub open spec fn spec_parse_command(toks: Seq<Seq<char>>) -> Option<CommandModel> {
    if toks.len() == 0 {
        None
    } else {
        let head = toks[0];
        if head == "run"@ {
            Some(CommandModel::Run(toks.skip(1)))
        } else if head == "continue"@ || head == "c"@ {
            if toks.len() == 1 {
                Some(CommandModel::Cont)
            } else {
                None
            }
        } else if head == "backtrace"@ || head == "bt"@ {
            if toks.len() == 1 {
                Some(CommandModel::Backtrace)
            } else {
                None
            }
        } else if head == "breakpoint"@ || head == "b"@ || head == "break"@ {
            if toks.len() == 2 {
                Some(CommandModel::Breakpoint(toks[1]))
            } else {
                None
            }
        } else if head == "quit"@ || head == "q"@ {
            if toks.len() == 1 {
                Some(CommandModel::Quit)
            } else {
                None
            }
        } else {
            None
        }
    }
}

/// Whether `tok` spells exactly `lit`.
fn token_is(tok: &String, lit: &str) -> (r: bool)
    ensures
        r == (tok@ == lit@),
{
    let l: String = lit.to_owned();
    *tok == l
}

/// Parses one tokenized input line into a command.
pub fn parse_command(tokens: &Vec<String>) -> (r: Option<Command>)
    ensures
        match r {
            Some(c) => spec_parse_command(views_of_strings(tokens@)) == Some(c@),
            None => spec_parse_command(views_of_strings(tokens@)) is None,
        },
{
    let ghost toks = views_of_strings(tokens@);
    if tokens.len() == 0 {
        return None;
    }
    let head = &tokens[0];
    if token_is(head, "run") {
        let mut args: Vec<String> = Vec::new();
        let mut i: usize = 1;
        while i < tokens.len()
            invariant
                1 <= i <= tokens.len(),
                views_of_strings(args@) =~= toks.skip(1).take(i - 1),
                toks == views_of_strings(tokens@),
            decreases tokens.len() - i,
        {
            let ghost prev = args@;
            args.push(tokens[i].clone());
            proof {
                assert(toks.len() == tokens@.len());
                assert(views_of_strings(prev).len() == prev.len());
                assert(prev.len() == i - 1);
                assert(args@ == prev.push(tokens@[i as int]));
                assert forall|j: int| 0 <= j < args@.len() implies views_of_strings(args@)[j]
                    == toks.skip(1).take(i as int)[j] by {
                    if j < i - 1 {
                        assert(views_of_strings(prev)[j] == toks.skip(1).take(i - 1)[j]);
                        assert(args@[j] == prev[j]);
                    } else {
                        assert(args@[j] == tokens@[i as int]);
                    }
                }
                assert(views_of_strings(args@) =~= toks.skip(1).take(i as int));
            }
            i += 1;
        }
        proof {
            assert(views_of_strings(args@) =~= toks.skip(1));
        }
        Some(Command::Run(args))
    } else if token_is(head, "continue") || token_is(head, "c") {
        if tokens.len() == 1 {
            Some(Command::Cont)
        } else {
            None
        }
    } else if token_is(head, "backtrace") || token_is(head, "bt") {
        if tokens.len() == 1 {
            Some(Command::Backtrace)
        } else {
            None
        }
    } else if token_is(head, "breakpoint") || token_is(head, "b") || token_is(head, "break") {
        if tokens.len() == 2 {
            Some(Command::Breakpoint(tokens[1].clone()))
        } else {
            None
        }
    } else if token_is(head, "quit") || token_is(head, "q") {
        if tokens.len() == 1 {
            Some(Command::Quit)
        } else {
            None
        }
    } else {
        None
    }
}

/// Where a requested breakpoint points: a raw address (`*<hex>`), a decimal
/// source line, or a function name. A `*` form whose digits do not parse is
/// invalid address syntax, reported distinctly and never recorded.
pub enum BreakLocation {
    Address(u64),
    Line(u64),
    Function(String),
    InvalidAddress,
}

/// The mathematical shape of a `BreakLocation`.
pub enum BreakLocationModel {
    Address(u64),
    Line(u64),
    Function(Seq<char>),
    InvalidAddress,
}

impl View for BreakLocation {
    type V = BreakLocationModel;

    open spec fn view(&self) -> BreakLocationModel {
        match self {
            BreakLocation::Address(a) => BreakLocationModel::Address(*a),
            BreakLocation::Line(n) => BreakLocationModel::Line(*n),
            BreakLocation::Function(f) => BreakLocationModel::Function(f@),
            BreakLocation::InvalidAddress => BreakLocationModel::InvalidAddress,
        }
    }
}

/// What a breakpoint location token means: after a leading `*`, the rest must
/// be a hexadecimal address; otherwise a string of decimal digits is a line
/// number, and anything else names a function.
pub open spec fn spec_parse_break_location(s: Seq<char>) -> BreakLocationModel {
    if s.len() > 0 && s[0] == '*' {
        match spec_parse_address(s.skip(1)) {
            Some(a) => BreakLocationModel::Address(a),
            None => BreakLocationModel::InvalidAddress,
        }
    } else {
        match spec_parse_radix(s, 10) {
            Some(n) => BreakLocationModel::Line(n),
            None => BreakLocationModel::Function(s),
        }
    }
}

/// Parses the location token of a breakpoint command.
pub fn parse_break_location(s: &str) -> (r: BreakLocation)
    ensures
        r@ == spec_parse_break_location(s@),
{
    let n = s.unicode_len();
    if n > 0 && s.get_char(0) == '*' {
        let rest = s.substring_char(1, n);
        proof {
            assert(rest@ =~= s@.skip(1));
        }
        match parse_address(rest) {
            Some(a) => BreakLocation::Address(a),
            None => BreakLocation::InvalidAddress,
        }
    } else {
        match parse_u64_radix(s, 10) {
            Some(v) => BreakLocation::Line(v),
            None => BreakLocation::Function(s.to_owned()),
        }
    }
}

} // verus!
