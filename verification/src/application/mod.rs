//! What an apply does, one outside step at a time.

pub mod apply;
pub mod classification;
pub mod coordinator;
pub mod dispatch;
pub mod errors;
pub mod execution;
pub mod queries;
pub mod reconcile;
pub mod recovery;
