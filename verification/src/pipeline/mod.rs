//! Pipeline configuration: the stages of a board, as the stages API reads
//! and edits them.

pub mod stages;
