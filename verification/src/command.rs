//! What the program is asked to do, as its options tell.

use vstd::prelude::*;
use vstd::string::*;

use crate::roll::OutputStyle;

verus! {

/// What the program does with its command line.
#[derive(Debug, Clone, Copy, PartialEq, Eq, Structural)]
pub enum Command {
    /// Show how the program is called, and stop.
    Help,
    /// Show the version of the program, and stop.
    Version,
    /// Print the statistics of the rolls in this style.
    Rolls(OutputStyle),
}

/// The first line of the help: how `progname` is called, and what a roll looks like.
pub open spec fn spec_usage_brief(progname: Seq<char>) -> Seq<char> {
    "Usage: "@ + progname
        + " [options] [rolls ...]\n\troll: XdY, XdY+Z, XdY-Z (e.g. 1d6, 2d4+1, 3d8-1)"@
}

/// Chooses what to do from the options that were given: help comes before
/// the version, and both before any roll; rolls are printed on several
/// lines unless a single line was asked for.
pub fn command(help: bool, version: bool, single_line: bool) -> (chosen: Command)
    ensures
        help ==> chosen == Command::Help,
        !help && version ==> chosen == Command::Version,
        !help && !version && single_line ==> chosen == Command::Rolls(OutputStyle::SingleLine),
        !help && !version && !single_line ==> chosen == Command::Rolls(OutputStyle::MultiLine),
{
    if help {
        Command::Help
    } else if version {
        Command::Version
    } else if single_line {
        Command::Rolls(OutputStyle::SingleLine)
    } else {
        Command::Rolls(OutputStyle::MultiLine)
    }
}

/// Writes the first line of the help for a program called `progname`.
pub fn usage_brief(progname: &str) -> (text: String)
    ensures
        text@ == spec_usage_brief(progname@),
{
    let mut text = String::from_str("Usage: ");
    text.append(progname);
    text.append(" [options] [rolls ...]\n\troll: XdY, XdY+Z, XdY-Z (e.g. 1d6, 2d4+1, 3d8-1)");
    text
}

} // verus!
