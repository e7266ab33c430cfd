//! Command-line argument handling.
//!
//! The daemon takes no arguments beyond `--help` and `--version`, so parsing
//! amounts to rejecting anything after the program name with the right kind
//! of answer.

use crate::text::str_eq;
use vstd::prelude::*;

verus! {

/// Command-line arguments of the daemon. There are none.
#[derive(Debug)]
pub struct CliArgs {}

/// Why an argument list did not parse into [`CliArgs`].
#[derive(Clone, Copy, Debug, PartialEq, Eq, Structural)]
pub enum CliErrorKind {
    /// A help flag was given; the caller should print usage text.
    DisplayHelp,
    /// A version flag was given; the caller should print the version.
    DisplayVersion,
    /// Any other argument.
    UnknownArgument,
}

/// Rejection of an argument list.
#[derive(Clone, Copy, Debug, PartialEq, Eq, Structural)]
pub struct CliError {
    pub kind: CliErrorKind,
}

/// The answer owed to the first argument after the program name.
pub open spec fn spec_arg_error(arg: Seq<char>) -> CliErrorKind {
    if arg == "--help"@ || arg == "-h"@ {
        CliErrorKind::DisplayHelp
    } else if arg == "--version"@ || arg == "-V"@ {
        CliErrorKind::DisplayVersion
    } else {
        CliErrorKind::UnknownArgument
    }
}

impl CliArgs {
    /// Parses an argument list whose first element is the program name.
    /// Succeeds exactly when nothing follows the program name; a help or
    /// version flag is reported as its own kind of rejection.
    pub fn try_parse_from(args: &Vec<String>) -> (r: Result<CliArgs, CliError>)
        ensures
            match r {
                Ok(_) => args@.len() <= 1,
                Err(e) => args@.len() > 1 && e.kind == spec_arg_error(args@[1]@),
            },
    {
        if args.len() <= 1 {
            Ok(CliArgs {  })
        } else {
            let arg = &args[1];
            let kind = if str_eq(arg.as_str(), "--help") || str_eq(arg.as_str(), "-h") {
                CliErrorKind::DisplayHelp
            } else if str_eq(arg.as_str(), "--version") || str_eq(arg.as_str(), "-V") {
                CliErrorKind::DisplayVersion
            } else {
                CliErrorKind::UnknownArgument
            };
            Err(CliError { kind })
        }
    }
}

} // verus!
