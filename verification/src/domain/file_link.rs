//! Resolved file-link definitions.

use vstd::prelude::*;
use crate::domain::effects::LinkView;
use crate::domain::ids::FullyQualifiedResourceId;
use crate::domain::paths::{same_path, ResolvedPath};

verus! {

/// The exact content of a link: the path that it holds.
#[derive(Debug, PartialEq, Eq)]
pub struct LinkTarget {
    path: ResolvedPath,
}

impl View for LinkTarget {
    type V = Seq<char>;

    closed spec fn view(&self) -> Seq<char> {
        self.path@
    }
}

impl Clone for LinkTarget {
    fn clone(&self) -> (copy: Self)
        ensures
            copy@ == self@,
    {
        LinkTarget { path: self.path.clone() }
    }
}

impl LinkTarget {
    /// A link that holds `path`.
    pub fn new(path: ResolvedPath) -> (target: Self)
        ensures
            target@ == path@,
    {
        LinkTarget { path }
    }

    /// The path that the link holds.
    pub fn as_path(&self) -> (path: &ResolvedPath)
        ensures
            path@ == self@,
    {
        &self.path
    }

    /// Whether two links hold the same path.
    pub fn same(&self, other: &Self) -> (equal: bool)
        ensures
            equal == same_path(self@, other@),
    {
        self.path.same(&other.path)
    }
}

/// A desired file-link definition with no declaration-level syntax.
#[derive(Debug, PartialEq, Eq)]
pub struct ResolvedFileLink {
    resource_id: FullyQualifiedResourceId,
    source_path: ResolvedPath,
    target_path: ResolvedPath,
    link_target: LinkTarget,
}

/// The reason a file-link definition is not canonical.
#[derive(Clone, Copy, Debug, PartialEq, Eq, Structural)]
pub enum ResolvedFileLinkError {
    SourceEqualsTarget,
}

impl View for ResolvedFileLink {
    type V = LinkView;

    closed spec fn view(&self) -> LinkView {
        LinkView {
            resource_id: self.resource_id@,
            source_path: self.source_path@,
            target_path: self.target_path@,
            link_target: self.link_target@,
        }
    }
}

impl Clone for ResolvedFileLink {
    fn clone(&self) -> (copy: Self)
        ensures
            copy@ == self@,
    {
        ResolvedFileLink {
            resource_id: self.resource_id.clone(),
            source_path: self.source_path.clone(),
            target_path: self.target_path.clone(),
            link_target: self.link_target.clone(),
        }
    }
}

impl ResolvedFileLink {
    /// A link at `target_path` that holds `source_path`.
    pub fn new(
        resource_id: FullyQualifiedResourceId,
        source_path: ResolvedPath,
        target_path: ResolvedPath,
    ) -> (outcome: Result<Self, ResolvedFileLinkError>)
        ensures
            match outcome {
                Ok(link) => !same_path(source_path@, target_path@) && link@ == (LinkView {
                    resource_id: resource_id@,
                    source_path: source_path@,
                    target_path: target_path@,
                    link_target: source_path@,
                }),
                Err(ResolvedFileLinkError::SourceEqualsTarget) => same_path(
                    source_path@,
                    target_path@,
                ),
            },
    {
        if source_path.same(&target_path) {
            return Err(ResolvedFileLinkError::SourceEqualsTarget);
        }
        let link_target = LinkTarget::new(source_path.clone());
        Ok(ResolvedFileLink { resource_id, source_path, target_path, link_target })
    }

    /// The resource that the link materializes.
    pub fn resource_id(&self) -> (id: &FullyQualifiedResourceId)
        ensures
            id@ == self@.resource_id,
    {
        &self.resource_id
    }

    /// The source of the link.
    pub fn source_path(&self) -> (path: &ResolvedPath)
        ensures
            path@ == self@.source_path,
    {
        &self.source_path
    }

    /// Where the link stands.
    pub fn target_path(&self) -> (path: &ResolvedPath)
        ensures
            path@ == self@.target_path,
    {
        &self.target_path
    }

    /// What the link holds.
    pub fn link_target(&self) -> (target: &LinkTarget)
        ensures
            target@ == self@.link_target,
    {
        &self.link_target
    }
}

/// A wanted link holds its source, and stands elsewhere.
pub proof fn wanted_link_holds_its_source_elsewhere(
    resource_id: FullyQualifiedResourceId,
    source_path: ResolvedPath,
    target_path: ResolvedPath,
    outcome: Result<ResolvedFileLink, ResolvedFileLinkError>,
)
    requires
        call_ensures(ResolvedFileLink::new, (resource_id, source_path, target_path), outcome),
    ensures
        outcome is Ok <==> !same_path(source_path@, target_path@),
        (outcome matches Ok(link) ==> link@.resource_id == resource_id@ && link@.source_path
            == source_path@ && link@.target_path == target_path@ && link@.link_target
            == link@.source_path),
{
}

/// Every part of a wanted link reads back as it was given, and it holds its source.
pub proof fn wanted_link_reads_back(
    resource_id: FullyQualifiedResourceId,
    source_path: ResolvedPath,
    target_path: ResolvedPath,
    made: ResolvedFileLink,
)
    requires
        call_ensures(ResolvedFileLink::new, (resource_id, source_path, target_path), Ok(made)),
    ensures
        forall|read: &FullyQualifiedResourceId|
            #[trigger] call_ensures(ResolvedFileLink::resource_id, (&made,), read) ==> read@
                == resource_id@,
        forall|read: &ResolvedPath|
            #[trigger] call_ensures(ResolvedFileLink::source_path, (&made,), read) ==> read@
                == source_path@,
        forall|read: &ResolvedPath|
            #[trigger] call_ensures(ResolvedFileLink::target_path, (&made,), read) ==> read@
                == target_path@,
        forall|read: &LinkTarget|
            #[trigger] call_ensures(ResolvedFileLink::link_target, (&made,), read) ==> read@
                == source_path@,
{
}

} // verus!
