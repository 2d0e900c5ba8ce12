//! Values of the environment model: identities, paths, effects, facts and plans.

pub mod actual;
pub mod desired;
pub mod diagnostic;
pub mod effects;
pub mod file_copy;
pub mod file_link;
pub mod ids;
pub mod known;
pub mod paths;
pub mod plan;
pub mod spelling;
pub mod targets;
