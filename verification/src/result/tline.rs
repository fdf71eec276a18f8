//! Lines of styled text, as received from a terminal.

use super::line_type::CommandStream;
use vstd::prelude::*;

verus! {

/// A string, and the CSI sequence styling it
#[derive(Debug, Clone, PartialEq, Eq, Default)]
pub struct TString {
    pub csi: String,
    pub raw: String,
}

impl TString {
    /// Whether no style applies to the string
    pub fn is_unstyled(&self) -> (r: bool)
        ensures
            r == (self.csi@.len() == 0),
    {
        self.csi.as_str().is_empty()
    }
}

/// A line made of styled strings
#[derive(Debug, Clone, PartialEq, Eq, Default)]
pub struct TLine {
    pub strings: Vec<TString>,
}

/// The text of a line made of one unstyled string
pub open spec fn spec_if_unstyled(t: TLine) -> Option<Seq<char>> {
    if t.strings@.len() == 1 && t.strings@[0].csi@.len() == 0 {
        Some(t.strings@[0].raw@)
    } else {
        None
    }
}

impl TLine {
    /// The text of the line, when it is made of one unstyled string
    pub fn if_unstyled(&self) -> (r: Option<&str>)
        ensures
            crate::text::opt_view(r) == spec_if_unstyled(*self),
    {
        if self.strings.len() == 1 && self.strings[0].is_unstyled() {
            Some(self.strings[0].raw.as_str())
        } else {
            None
        }
    }
}

/// A line of the output of a command
#[derive(Debug, Clone, PartialEq, Eq)]
pub struct CommandOutputLine {
    pub content: TLine,
    pub origin: CommandStream,
}

} // verus!
