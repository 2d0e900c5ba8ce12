//! What the declarations of a machine say.

pub mod runtime_config;
