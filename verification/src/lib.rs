//! Core logic of a directory-listing tool: a verified column-layout
//! (tabulation) engine together with the plain data types and pure
//! formatting rules that the surrounding program shares.
//!
//! The engine lives in [`tabulate`]: given an ordered sequence of items,
//! each with a display width and a renderable text, it searches for the
//! densest column arrangement that fits a line-width budget and renders
//! the items into that grid. Everything that touches the file system,
//! the terminal or the locale stays outside this crate.

pub mod longformat;
pub mod posix;
pub mod tabulate;

use vstd::prelude::*;

verus! {

/// Options that drive one listing run.
#[derive(Debug)]
pub struct Arguments {
    /// Width budget for a rendered line, in character cells.
    pub max_line_length: usize,
    /// The paths named on the command line.
    pub paths: Vec<String>,
    /// List the contents of directories instead of the directories themselves.
    pub list_dir_content: bool,
    /// Include entries whose names mark them as hidden.
    pub show_hidden: bool,
    /// Fill the grid left-to-right by lines instead of top-to-bottom by columns.
    pub by_lines: bool,
    /// Use the long, one-entry-per-line format.
    pub long_format: bool,
}

/// Errors a listing run can report to its caller.
#[derive(Debug)]
pub enum ListareError {
    /// A failure with no further detail.
    Unknown,
    /// A failure described by a message.
    Generic(String),
}

impl ListareError {
    /// The human-readable description of the error.
    pub fn message(&self) -> (s: String)
        ensures
            self is Unknown ==> s@ == "An unknown error occurred"@,
            self matches ListareError::Generic(m) ==> s@ == m@,
    {
        match self {
            ListareError::Unknown => "An unknown error occurred".to_owned(),
            ListareError::Generic(msg) => msg.clone(),
        }
    }
}

/// True when a file name is hidden by convention: its first byte is a period.
/// An empty name is not hidden.
pub fn is_hidden_name(name: &[u8]) -> (hidden: bool)
    ensures
        hidden == (name@.len() > 0 && name@[0] == 46u8),
{
    if name.len() == 0 {
        false
    } else {
        name[0] == 46u8
    }
}

} // verus!
