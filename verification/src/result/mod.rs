//! The lines of a report, as produced from the output of a command.

pub mod line;
pub mod line_type;
pub mod tline;
