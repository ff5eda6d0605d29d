//! Line, word, character and byte counts of file contents, and counts of
//! directory entries by type, with totals across many inputs.

pub mod text;
pub mod stat;
pub mod total;
pub mod run;
pub mod counter;
pub mod options;
pub mod style;
