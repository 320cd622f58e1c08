//! One line of input, and what is to be said of it.

use vstd::prelude::*;
use vstd::string::*;

use crate::error::EvError;
use crate::parser::{parse, spec_parse};
use crate::roll::OutputStyle;

verus! {

/// What is said of a line that is no roll: the reason, a colon and the line.
pub open spec fn spec_complaint(error: EvError, line: Seq<char>) -> Seq<char> {
    error.spec_description() + ": "@ + line
}

/// Reads one line and writes what is to be printed for it.
///
/// `Ok` holds the statistics of the roll in the given style, meant for the
/// standard output. `Err` holds the complaint about a line that is no roll,
/// meant for the error stream; the lines after it can still be read.
pub fn parse_and_print(line: &str, output_style: &OutputStyle) -> (res: Result<String, String>)
    ensures
        match spec_parse(line@) {
            Ok(roll) => res matches Ok(text) && text@ == roll.spec_render(*output_style),
            Err(error) => res matches Err(text) && text@ == spec_complaint(error, line@),
        },
{
    match parse(line) {
        Ok(roll) => Ok(roll.render(output_style)),
        Err(error) => {
            let mut text = String::from_str(error.description());
            text.append(": ");
            text.append(line);
            Err(text)
        },
    }
}

} // verus!
