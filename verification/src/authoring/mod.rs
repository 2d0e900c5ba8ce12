//! Edits to the files that a user keeps.

pub mod checks;
pub mod config_set;
pub mod config_use;
pub mod editing;
pub mod faults;
pub mod files;
pub mod init;
pub mod sessions;
