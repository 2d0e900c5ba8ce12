//! What is written to the terminal, and the exit codes.

pub mod apply;
pub mod authoring;
pub mod commands;
pub mod exits;
pub mod render;
pub mod reports;
pub mod wording;
