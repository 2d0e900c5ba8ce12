//! The durable record of an operation.

pub mod operation;
pub mod repository;
