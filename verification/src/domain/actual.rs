//! What is observed at a target.

use vstd::prelude::*;
use crate::domain::file_copy::ContentFingerprint;
use crate::domain::file_link::LinkTarget;
use crate::domain::paths::ResolvedPath;

verus! {

/// What stands at the target of a link.
///
/// An entry of another kind and an unsafe parent are named by what the observer calls them.
#[derive(Debug, PartialEq, Eq)]
pub enum TargetObservation {
    Missing,
    ExpectedLink { link_target: LinkTarget },
    MatchingUnmanagedLink { link_target: LinkTarget },
    OtherLink { link_target: LinkTarget },
    OtherEntry { kind: String },
    UnsafePath { parent_safety: String },
}

/// What stands at the target of a copy.
#[derive(Debug, PartialEq, Eq)]
pub enum CopyTargetObservation {
    Missing,
    ExpectedCopy { content_fingerprint: ContentFingerprint },
    OtherRegularFile { content_fingerprint: ContentFingerprint },
    OtherEntry { kind: String },
    UnsafePath { parent_safety: String },
}

/// One observation of the target of a link.
#[derive(Debug, PartialEq, Eq)]
pub struct ActualFileLink {
    pub target_path: ResolvedPath,
    pub observation: TargetObservation,
}

/// One observation of the target of a copy.
#[derive(Debug, PartialEq, Eq)]
pub struct ActualFileCopy {
    pub target_path: ResolvedPath,
    pub observation: CopyTargetObservation,
}

/// One observation of a target.
#[derive(Debug, PartialEq, Eq)]
pub enum ActualResource {
    FileLink(ActualFileLink),
    FileCopy(ActualFileCopy),
}

impl ActualResource {
    /// The target that was observed.
    pub open spec fn target(self) -> Seq<char> {
        match self {
            ActualResource::FileLink(actual) => actual.target_path@,
            ActualResource::FileCopy(actual) => actual.target_path@,
        }
    }

    /// The target that was observed.
    pub fn target_path(&self) -> (path: &ResolvedPath)
        ensures
            path@ == self.target(),
    {
        match self {
            ActualResource::FileLink(actual) => &actual.target_path,
            ActualResource::FileCopy(actual) => &actual.target_path,
        }
    }
}

} // verus!
