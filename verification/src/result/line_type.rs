//! The kinds of items and of lines in a report.

use vstd::prelude::*;

verus! {

/// The kind of an item of a report
#[derive(Debug, Clone, Copy, PartialEq, Eq, Structural, Hash)]
pub enum Kind {
    Warning,
    Error,
    TestFail,
    TestOutput,
    Sum,
}

/// The stream a line of command output came from
#[derive(Debug, Clone, Copy, PartialEq, Eq, Structural, Hash)]
pub enum CommandStream {
    StdOut,
    StdErr,
}

/// The role of a line in a report
#[derive(Debug, Clone, Copy, PartialEq, Eq, Structural, Hash)]
pub enum LineType {
    /// the first line of an item: a warning, an error, or a failing test
    Title(Kind),
    /// the location of an item in the sources
    Location,
    /// a line of unanalyzed output
    Raw(CommandStream),
    /// a line continuing the previous one
    Continuation { offset: usize, total: usize },
    /// any other line
    Normal,
}

impl LineType {
    /// Whether lines of this type are kept in a summary
    pub fn is_summary(self) -> (r: bool)
        ensures
            r == (self is Title || self is Location),
    {
        matches!(self, LineType::Title(_) | LineType::Location)
    }
}

} // verus!
