//! Desired state, ownership-aware file effects and durable recovery for a local environment.

pub mod application;
pub mod authoring;
pub mod cli;
pub mod declaration;
pub mod domain;
pub mod state;
pub mod text;
