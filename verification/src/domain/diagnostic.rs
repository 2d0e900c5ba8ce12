//! Reasons why a plan may not be executed.

use vstd::prelude::*;
use crate::domain::actual::{CopyTargetObservation, TargetObservation};
use crate::domain::ids::FullyQualifiedResourceId;
use crate::domain::paths::ResolvedPath;
use crate::domain::plan::ActionKind;

verus! {

/// One conflict or obstacle that planning met.
#[derive(Debug, PartialEq, Eq)]
pub enum Diagnostic {
    TargetCollision { target_path: ResolvedPath, resource_ids: Vec<FullyQualifiedResourceId> },
    UnexpectedTarget {
        resource_id: FullyQualifiedResourceId,
        target_path: ResolvedPath,
        observation: TargetObservation,
    },
    UnexpectedCopyTarget {
        resource_id: FullyQualifiedResourceId,
        target_path: ResolvedPath,
        observation: CopyTargetObservation,
    },
    MissingActualObservation { target_path: ResolvedPath },
    UnsupportedPlatform { resource_id: FullyQualifiedResourceId, action_kind: ActionKind },
    UnsupportedResourceEffect {
        resource_id: FullyQualifiedResourceId,
        target_path: ResolvedPath,
        effect: String,
    },
    IdentityHandoffPrecondition {
        old_resource_id: FullyQualifiedResourceId,
        new_resource_id: FullyQualifiedResourceId,
        target_path: ResolvedPath,
        observation: TargetObservation,
    },
}

impl Diagnostic {
    /// Whether the diagnostic keeps a plan from being executed: every conflict and obstacle does.
    pub open spec fn blocks(self) -> bool {
        match self {
            Diagnostic::TargetCollision { .. } => true,
            Diagnostic::UnexpectedTarget { .. } => true,
            Diagnostic::UnexpectedCopyTarget { .. } => true,
            Diagnostic::MissingActualObservation { .. } => true,
            Diagnostic::UnsupportedPlatform { .. } => true,
            Diagnostic::UnsupportedResourceEffect { .. } => true,
            Diagnostic::IdentityHandoffPrecondition { .. } => true,
        }
    }

    /// Whether the diagnostic keeps a plan from being executed.
    pub fn is_blocking(&self) -> (blocking: bool)
        ensures
            blocking == self.blocks(),
    {
        match self {
            Diagnostic::TargetCollision { .. } => true,
            Diagnostic::UnexpectedTarget { .. } => true,
            Diagnostic::UnexpectedCopyTarget { .. } => true,
            Diagnostic::MissingActualObservation { .. } => true,
            Diagnostic::UnsupportedPlatform { .. } => true,
            Diagnostic::UnsupportedResourceEffect { .. } => true,
            Diagnostic::IdentityHandoffPrecondition { .. } => true,
        }
    }
}

} // verus!
