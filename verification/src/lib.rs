//! Statistics of dice rolls written in the `XdY+Z` notation.
//!
//! A line of text such as `2d6+1` is read by [`parse`] into a [`Roll`], whose
//! smallest, largest and expected outcomes are computed exactly and written
//! out as text. Every function comes with a contract that Verus proves.
//!
//! - [`parser`]: the notation and how it is read;
//! - [`roll`]: a roll, its statistics and how they are written;
//! - [`decimal`]: numbers in base ten, read and written;
//! - [`text`]: the ASCII head of a UTF-8 text;
//! - [`report`]: what is printed for one line of input;
//! - [`command`]: what the options of the program ask for;
//! - [`error`]: why a text is no roll;
//! - [`laws`]: what holds of all of these together.

pub mod command;
pub mod decimal;
pub mod error;
pub mod laws;
pub mod parser;
pub mod report;
pub mod roll;
pub mod text;

pub use command::{command, usage_brief, Command};
pub use error::EvError;
pub use parser::{parse, read_digits};
pub use report::parse_and_print;
pub use roll::{ExpectedValue, OutputStyle, Roll};
