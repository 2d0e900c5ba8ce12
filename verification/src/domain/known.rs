//! Verified historical facts about file effects.

use vstd::prelude::*;
use vstd::string::*;
use crate::domain::effects::{
    belongs_at, by_id, distinct, distinct_until, id_taken, keyed, lemma_absent, lemma_by_id,
    lemma_by_id_take, lemma_distinct, lemma_distinct_take, lemma_insert, lemma_remove, lemma_sorted,
    lemma_sorted_at, lemma_sorted_distinct, repeats_id, repeats_target, same_copy, same_effect,
    same_link, sorted, target_taken, targets_differ, CopyView, EffectView, LinkView,
};
use crate::domain::file_copy::{ContentFingerprint, ResolvedFileCopy};
use crate::domain::file_link::{LinkTarget, ResolvedFileLink};
use crate::domain::ids::FullyQualifiedResourceId;
use crate::domain::paths::{same_path, ResolvedPath};
use crate::text::{
    closes, copy_of, lemma_precedes_irreflexive, lemma_precedes_total, lemma_precedes_transitive,
    opens, precedes,
};

verus! {

/// A previously verified file-link post-condition.
#[derive(Debug, PartialEq, Eq)]
pub struct KnownFileLink {
    resource_id: FullyQualifiedResourceId,
    source_path: ResolvedPath,
    target_path: ResolvedPath,
    link_target: LinkTarget,
}

/// The reason a persisted file-link fact cannot be trusted.
#[derive(Clone, Copy, Debug, PartialEq, Eq, Structural)]
pub enum KnownFileLinkError {
    SourceEqualsTarget,
    LinkTargetDiffersFromSource,
}

impl View for KnownFileLink {
    type V = LinkView;

    closed spec fn view(&self) -> LinkView {
        LinkView {
            resource_id: self.resource_id@,
            source_path: self.source_path@,
            target_path: self.target_path@,
            link_target: self.link_target@,
        }
    }
}

impl Clone for KnownFileLink {
    fn clone(&self) -> (copy: Self)
        ensures
            copy@ == self@,
    {
        KnownFileLink {
            resource_id: self.resource_id.clone(),
            source_path: self.source_path.clone(),
            target_path: self.target_path.clone(),
            link_target: self.link_target.clone(),
        }
    }
}

impl KnownFileLink {
    /// Validates a persisted file-link record before it can be trusted.
    pub fn new(
        resource_id: FullyQualifiedResourceId,
        source_path: ResolvedPath,
        target_path: ResolvedPath,
        link_target: LinkTarget,
    ) -> (outcome: Result<Self, KnownFileLinkError>)
        ensures
            match outcome {
                Ok(link) => !same_path(source_path@, target_path@) && same_path(
                    link_target@,
                    source_path@,
                ) && link@ == (LinkView {
                    resource_id: resource_id@,
                    source_path: source_path@,
                    target_path: target_path@,
                    link_target: link_target@,
                }),
                Err(KnownFileLinkError::SourceEqualsTarget) => same_path(
                    source_path@,
                    target_path@,
                ),
                Err(KnownFileLinkError::LinkTargetDiffersFromSource) => !same_path(
                    source_path@,
                    target_path@,
                ) && !same_path(link_target@, source_path@),
            },
    {
        if source_path.same(&target_path) {
            return Err(KnownFileLinkError::SourceEqualsTarget);
        }
        if !link_target.as_path().same(&source_path) {
            return Err(KnownFileLinkError::LinkTargetDiffersFromSource);
        }
        Ok(KnownFileLink { resource_id, source_path, target_path, link_target })
    }

    /// The fact that becomes eligible once a resolved link is verified.
    pub fn from_resolved(resource: &ResolvedFileLink) -> (link: Self)
        ensures
            link@ == resource@,
    {
        KnownFileLink {
            resource_id: resource.resource_id().clone(),
            source_path: resource.source_path().clone(),
            target_path: resource.target_path().clone(),
            link_target: resource.link_target().clone(),
        }
    }

    /// The resource that owns this post-condition.
    pub fn resource_id(&self) -> (id: &FullyQualifiedResourceId)
        ensures
            id@ == self@.resource_id,
    {
        &self.resource_id
    }

    /// The source recorded after verification.
    pub fn source_path(&self) -> (path: &ResolvedPath)
        ensures
            path@ == self@.source_path,
    {
        &self.source_path
    }

    /// The target recorded after verification.
    pub fn target_path(&self) -> (path: &ResolvedPath)
        ensures
            path@ == self@.target_path,
    {
        &self.target_path
    }

    /// The exact link content whose observation proves ownership.
    pub fn link_target(&self) -> (target: &LinkTarget)
        ensures
            target@ == self@.link_target,
    {
        &self.link_target
    }

    /// Whether two facts are the same.
    pub fn same(&self, other: &Self) -> (equal: bool)
        ensures
            equal == same_link(self@, other@),
    {
        self.resource_id.same(&other.resource_id) && self.source_path.same(&other.source_path)
            && self.target_path.same(&other.target_path) && self.link_target.same(
            &other.link_target,
        )
    }
}

impl KnownFileLinkError {
    /// What the error says.
    pub open spec fn message(self) -> Seq<char> {
        match self {
            KnownFileLinkError::SourceEqualsTarget =>
                "a Known file-link source and target must not be the same path"@,
            KnownFileLinkError::LinkTargetDiffersFromSource =>
                "a Known file-link target must equal its recorded resolved source path"@,
        }
    }

    /// What the error says.
    pub fn to_text(&self) -> (text: String)
        ensures
            text@ == self.message(),
    {
        match self {
            KnownFileLinkError::SourceEqualsTarget => copy_of(
                "a Known file-link source and target must not be the same path",
            ),
            KnownFileLinkError::LinkTargetDiffersFromSource => copy_of(
                "a Known file-link target must equal its recorded resolved source path",
            ),
        }
    }
}

/// A previously verified file-copy post-condition.
#[derive(Debug, PartialEq, Eq)]
pub struct KnownFileCopy {
    resource_id: FullyQualifiedResourceId,
    source_path: ResolvedPath,
    target_path: ResolvedPath,
    content_fingerprint: ContentFingerprint,
}

/// The reason a persisted file-copy fact cannot be trusted.
#[derive(Clone, Copy, Debug, PartialEq, Eq, Structural)]
pub enum KnownFileCopyError {
    SourceEqualsTarget,
}

impl View for KnownFileCopy {
    type V = CopyView;

    closed spec fn view(&self) -> CopyView {
        CopyView {
            resource_id: self.resource_id@,
            source_path: self.source_path@,
            target_path: self.target_path@,
            content_fingerprint: self.content_fingerprint@,
        }
    }
}

impl Clone for KnownFileCopy {
    fn clone(&self) -> (copy: Self)
        ensures
            copy@ == self@,
    {
        KnownFileCopy {
            resource_id: self.resource_id.clone(),
            source_path: self.source_path.clone(),
            target_path: self.target_path.clone(),
            content_fingerprint: self.content_fingerprint.clone(),
        }
    }
}

impl KnownFileCopy {
    /// Validates a persisted file-copy record before it can be trusted.
    pub fn new(
        resource_id: FullyQualifiedResourceId,
        source_path: ResolvedPath,
        target_path: ResolvedPath,
        content_fingerprint: ContentFingerprint,
    ) -> (outcome: Result<Self, KnownFileCopyError>)
        ensures
            match outcome {
                Ok(copy) => !same_path(source_path@, target_path@) && copy@ == (CopyView {
                    resource_id: resource_id@,
                    source_path: source_path@,
                    target_path: target_path@,
                    content_fingerprint: content_fingerprint@,
                }),
                Err(KnownFileCopyError::SourceEqualsTarget) => same_path(
                    source_path@,
                    target_path@,
                ),
            },
    {
        if source_path.same(&target_path) {
            return Err(KnownFileCopyError::SourceEqualsTarget);
        }
        Ok(KnownFileCopy { resource_id, source_path, target_path, content_fingerprint })
    }

    /// The fact that becomes eligible once a resolved copy is verified.
    pub fn from_resolved(resource: &ResolvedFileCopy) -> (copy: Self)
        ensures
            copy@ == resource@,
    {
        KnownFileCopy {
            resource_id: resource.resource_id().clone(),
            source_path: resource.source_path().clone(),
            target_path: resource.target_path().clone(),
            content_fingerprint: resource.source_content_fingerprint().clone(),
        }
    }

    /// The resource that owns this post-condition.
    pub fn resource_id(&self) -> (id: &FullyQualifiedResourceId)
        ensures
            id@ == self@.resource_id,
    {
        &self.resource_id
    }

    /// The source recorded after verification.
    pub fn source_path(&self) -> (path: &ResolvedPath)
        ensures
            path@ == self@.source_path,
    {
        &self.source_path
    }

    /// The target recorded after verification.
    pub fn target_path(&self) -> (path: &ResolvedPath)
        ensures
            path@ == self@.target_path,
    {
        &self.target_path
    }

    /// The fingerprint of the bytes recorded after verification.
    pub fn content_fingerprint(&self) -> (fingerprint: &ContentFingerprint)
        ensures
            fingerprint@ == self@.content_fingerprint,
    {
        &self.content_fingerprint
    }

    /// Whether two facts are the same.
    pub fn same(&self, other: &Self) -> (equal: bool)
        ensures
            equal == same_copy(self@, other@),
    {
        self.resource_id.same(&other.resource_id) && self.source_path.same(&other.source_path)
            && self.target_path.same(&other.target_path) && self.content_fingerprint.same(
            &other.content_fingerprint,
        )
    }
}

impl KnownFileCopyError {
    /// What the error says.
    pub fn to_text(&self) -> (text: String)
        ensures
            text@ == "a Known file-copy source and target must not be the same path"@,
    {
        copy_of("a Known file-copy source and target must not be the same path")
    }
}

/// A verified file effect.
#[derive(Debug, PartialEq, Eq)]
pub enum KnownResource {
    FileLink(KnownFileLink),
    FileCopy(KnownFileCopy),
}

impl View for KnownResource {
    type V = EffectView;

    open spec fn view(&self) -> EffectView {
        match self {
            KnownResource::FileLink(link) => EffectView::Link(link@),
            KnownResource::FileCopy(copy) => EffectView::Copy(copy@),
        }
    }
}

impl Clone for KnownResource {
    fn clone(&self) -> (copy: Self)
        ensures
            copy@ == self@,
    {
        match self {
            KnownResource::FileLink(link) => KnownResource::FileLink(link.clone()),
            KnownResource::FileCopy(copy) => KnownResource::FileCopy(copy.clone()),
        }
    }
}

impl KnownResource {
    /// The resource that owns the effect.
    pub fn resource_id(&self) -> (id: &FullyQualifiedResourceId)
        ensures
            id@ == self@.resource_id(),
    {
        match self {
            KnownResource::FileLink(link) => link.resource_id(),
            KnownResource::FileCopy(copy) => copy.resource_id(),
        }
    }

    /// Where the effect stands.
    pub fn target_path(&self) -> (path: &ResolvedPath)
        ensures
            path@ == self@.target_path(),
    {
        match self {
            KnownResource::FileLink(link) => link.target_path(),
            KnownResource::FileCopy(copy) => copy.target_path(),
        }
    }
}

/// The effects of a list of facts, in order.
pub open spec fn known_views(list: Seq<KnownResource>) -> Seq<EffectView> {
    Seq::new(list.len(), |i: int| list[i]@)
}

/// The file links among effects, in order.
pub open spec fn links_of(list: Seq<EffectView>) -> Seq<LinkView>
    decreases list.len(),
{
    if list.len() == 0 {
        Seq::empty()
    } else {
        match list.last() {
            EffectView::Link(link) => links_of(list.drop_last()).push(link),
            EffectView::Copy(_) => links_of(list.drop_last()),
        }
    }
}

/// All verified historical facts: at most one for a resource, and at most one at a target.
///
/// The view gives the fact of each resource.
#[derive(Debug, PartialEq, Eq)]
pub struct KnownState {
    resources: Vec<KnownResource>,
}

impl View for KnownState {
    type V = Map<Seq<char>, EffectView>;

    closed spec fn view(&self) -> Map<Seq<char>, EffectView> {
        by_id(known_views(self.resources@))
    }
}

/// The reason a set of facts would break a uniqueness rule, or a transition does not apply.
#[derive(Debug, PartialEq, Eq)]
pub enum KnownStateError {
    DuplicateResourceId { resource_id: FullyQualifiedResourceId },
    DuplicateTarget {
        target_path: ResolvedPath,
        first_resource_id: FullyQualifiedResourceId,
        duplicate_resource_id: FullyQualifiedResourceId,
    },
    MissingResource { resource_id: FullyQualifiedResourceId },
    ResourceMismatch { resource_id: FullyQualifiedResourceId },
    DestinationResourcePresent { resource_id: FullyQualifiedResourceId },
}

/// What building a state from a list of effects gives: the first clash decides.
pub open spec fn builds(list: Seq<EffectView>, outcome: Result<KnownState, KnownStateError>) -> bool {
    match outcome {
        Ok(state) => distinct(list) && state@ == by_id(list),
        Err(KnownStateError::DuplicateResourceId { resource_id }) => exists|i: int|
            #[trigger] repeats_id(list, i) && resource_id@ == list[i].resource_id(),
        Err(
            KnownStateError::DuplicateTarget {
                target_path,
                first_resource_id,
                duplicate_resource_id,
            },
        ) => exists|i: int, j: int|
            #[trigger] repeats_target(list, i, j) && target_path@ == list[i].target_path()
                && first_resource_id@ == list[j].resource_id() && duplicate_resource_id@
                == list[i].resource_id(),
        Err(_) => false,
    }
}

/// Whether `error` says that `effect` would stand where the fact of another resource stands.
///
/// The two resources are named in their order, and the target as the second one spells it.
pub open spec fn clashes(
    known: Map<Seq<char>, EffectView>,
    effect: EffectView,
    error: KnownStateError,
) -> bool {
    error matches KnownStateError::DuplicateTarget {
        target_path,
        first_resource_id,
        duplicate_resource_id,
    } && exists|other: Seq<char>|
        {
            &&& #[trigger] known.contains_key(other)
            &&& other != effect.resource_id()
            &&& known[other].target_key() == effect.target_key()
            &&& if precedes(other, effect.resource_id()) {
                &&& first_resource_id@ == other
                &&& duplicate_resource_id@ == effect.resource_id()
                &&& target_path@ == effect.target_path()
            } else {
                &&& first_resource_id@ == effect.resource_id()
                &&& duplicate_resource_id@ == other
                &&& target_path@ == known[other].target_path()
            }
        }
}

/// What recording a verified effect gives, whatever was recorded of its resource before.
pub open spec fn upserts(
    known: Map<Seq<char>, EffectView>,
    effect: EffectView,
    outcome: Result<KnownState, KnownStateError>,
) -> bool {
    match outcome {
        Ok(state) => state@ == known.insert(effect.resource_id(), effect) && targets_differ(state@),
        Err(error) => clashes(known, effect, error),
    }
}

/// What forgetting one exact fact gives.
pub open spec fn removes(
    known: Map<Seq<char>, EffectView>,
    expected: EffectView,
    outcome: Result<KnownState, KnownStateError>,
) -> bool {
    let id = expected.resource_id();
    match outcome {
        Ok(state) => known.contains_key(id) && same_effect(known[id], expected) && state@
            == known.remove(id),
        Err(KnownStateError::MissingResource { resource_id }) => !known.contains_key(id)
            && resource_id@ == id,
        Err(KnownStateError::ResourceMismatch { resource_id }) => known.contains_key(id)
            && !same_effect(known[id], expected) && resource_id@ == id,
        Err(_) => false,
    }
}

/// Where a resource is, or belongs, in a sorted list.
fn find_place(resources: &Vec<KnownResource>, id: &FullyQualifiedResourceId) -> (place: (usize, bool))
    requires
        sorted(known_views(resources@)),
    ensures
        place.0 <= resources@.len(),
        place.1 ==> place.0 < resources@.len() && resources@[place.0 as int]@.resource_id() == id@,
        !place.1 ==> belongs_at(known_views(resources@), place.0 as int, id@),
{
    let ghost list = known_views(resources@);
    let mut i: usize = 0;
    while i < resources.len() && resources[i].resource_id().is_before(id)
        invariant
            i <= resources@.len(),
            list == known_views(resources@),
            sorted(list),
            forall|k: int| 0 <= k < i ==> precedes((#[trigger] list[k]).resource_id(), id@),
        decreases resources.len() - i,
    {
        assert(list[i as int] == resources@[i as int]@);
        i += 1;
    }
    if i < resources.len() {
        assert(list[i as int] == resources@[i as int]@);
        if resources[i].resource_id().same(id) {
            return (i, true);
        }
        proof {
            lemma_precedes_total(list[i as int].resource_id(), id@);
            assert forall|k: int| i <= k < list.len() implies precedes(
                id@,
                (#[trigger] list[k]).resource_id(),
            ) by {
                if k > i {
                    assert(precedes(list[i as int].resource_id(), list[k].resource_id()));
                    lemma_precedes_transitive(
                        id@,
                        list[i as int].resource_id(),
                        list[k].resource_id(),
                    );
                }
            }
        }
    }
    (i, false)
}

impl KnownState {
    #[verifier::type_invariant]
    spec fn ordered(self) -> bool {
        &&& sorted(known_views(self.resources@))
        &&& targets_differ(by_id(known_views(self.resources@)))
    }

    /// The facts in the order of their resources.
    pub closed spec fn listing(self) -> Seq<EffectView> {
        known_views(self.resources@)
    }

    /// The state of a machine with no recorded effects.
    pub fn empty() -> (state: Self)
        ensures
            state@ == Map::<Seq<char>, EffectView>::empty(),
    {
        let resources: Vec<KnownResource> = Vec::new();
        proof {
            assert(by_id(known_views(resources@)) =~= Map::<Seq<char>, EffectView>::empty());
        }
        KnownState { resources }
    }

    /// Builds a state while validating that resources and targets are unique.
    pub fn new(resources: Vec<KnownResource>) -> (outcome: Result<Self, KnownStateError>)
        ensures
            builds(known_views(resources@), outcome),
    {
        let ghost list = known_views(resources@);
        let mut held: Vec<KnownResource> = Vec::new();
        let mut i: usize = 0;
        proof {
            assert(by_id(known_views(held@)) =~= by_id(list.take(0)));
        }
        while i < resources.len()
            invariant
                i <= resources@.len(),
                list == known_views(resources@),
                distinct_until(list, i as int),
                sorted(known_views(held@)),
                by_id(known_views(held@)) == by_id(list.take(i as int)),
            decreases resources.len() - i,
        {
            let resource = &resources[i];
            let ghost effect = list[i as int];
            let ghost front = list.take(i as int);
            let ghost listed = known_views(held@);
            proof {
                lemma_distinct_take(list, i as int);
                lemma_by_id(front);
            }
            let (place, present) = find_place(&held, resource.resource_id());
            if present {
                proof {
                    lemma_sorted_at(listed, place as int);
                    let j = choose|j: int|
                        0 <= j < front.len() && (#[trigger] front[j]).resource_id()
                            == effect.resource_id();
                    assert(list[j].resource_id() == effect.resource_id());
                    assert(repeats_id(list, i as int));
                }
                return Err(
                    KnownStateError::DuplicateResourceId {
                        resource_id: resource.resource_id().clone(),
                    },
                );
            }
            proof {
                lemma_absent(listed, place as int, effect.resource_id());
                if id_taken(list, i as int) {
                    let j = choose|j: int|
                        0 <= j < i && (#[trigger] list[j]).resource_id() == effect.resource_id();
                    assert(front[j].resource_id() == effect.resource_id());
                }
            }
            let mut k: usize = 0;
            while k < held.len()
                invariant
                    k <= held@.len(),
                    i < resources@.len(),
                    list == known_views(resources@),
                    *resource == resources@[i as int],
                    effect == list[i as int],
                    front == list.take(i as int),
                    listed == known_views(held@),
                    sorted(listed),
                    by_id(listed) == by_id(front),
                    distinct(front),
                    keyed(by_id(front)),
                    distinct_until(list, i as int),
                    !id_taken(list, i as int),
                    forall|m: int|
                        0 <= m < k ==> (#[trigger] listed[m]).target_key() != effect.target_key(),
                decreases held.len() - k,
            {
                if held[k].target_path().same(resource.target_path()) {
                    proof {
                        lemma_sorted_at(listed, k as int);
                        assert(listed[k as int] == held@[k as int]@);
                        let id = listed[k as int].resource_id();
                        assert(by_id(front).contains_key(id));
                        let j = choose|j: int|
                            0 <= j < front.len() && (#[trigger] front[j]).resource_id() == id;
                        lemma_by_id(front);
                        assert(by_id(front)[front[j].resource_id()] == front[j]);
                        assert(list[j] == front[j]);
                        assert(repeats_target(list, i as int, j));
                    }
                    return Err(
                        KnownStateError::DuplicateTarget {
                            target_path: resource.target_path().clone(),
                            first_resource_id: held[k].resource_id().clone(),
                            duplicate_resource_id: resource.resource_id().clone(),
                        },
                    );
                }
                k += 1;
            }
            proof {
                if target_taken(list, i as int) {
                    let j = choose|j: int|
                        0 <= j < i && (#[trigger] list[j]).target_key() == effect.target_key();
                    assert(front[j] == list[j]);
                    assert(by_id(front).contains_key(front[j].resource_id()));
                    let m = choose|m: int|
                        0 <= m < listed.len() && (#[trigger] listed[m]).resource_id()
                            == front[j].resource_id();
                    lemma_sorted_at(listed, m);
                    assert(listed[m] == front[j]);
                }
                assert(distinct_until(list, i + 1));
                lemma_insert(listed, place as int, effect);
                lemma_by_id_take(list, i as int);
            }
            held.insert(place, resource.clone());
            assert(known_views(held@) =~= listed.insert(place as int, effect));
            i += 1;
        }
        proof {
            assert(list.take(i as int) =~= list);
            lemma_by_id(list);
        }
        Ok(KnownState { resources: held })
    }

    /// The verified link of a resource, if that is what is recorded of it.
    pub fn get(&self, resource_id: &FullyQualifiedResourceId) -> (found: Option<&KnownFileLink>)
        ensures
            match found {
                Some(link) => self@.contains_key(resource_id@) && self@[resource_id@]
                    == EffectView::Link(link@),
                None => self@.contains_key(resource_id@) ==> self@[resource_id@] is Copy,
            },
    {
        match self.get_variant(resource_id) {
            Some(KnownResource::FileLink(link)) => Some(link),
            _ => None,
        }
    }

    /// The facts in the order of their resources.
    pub fn resources(&self) -> (resources: &Vec<KnownResource>)
        ensures
            known_views(resources@) == self.listing(),
            sorted(self.listing()),
            distinct(self.listing()),
            by_id(self.listing()) == self@,
    {
        proof {
            use_type_invariant(self);
            lemma_sorted_distinct(known_views(self.resources@));
        }
        &self.resources
    }

    /// The verified links in the order of their resources.
    pub fn file_links(&self) -> (links: Vec<&KnownFileLink>)
        ensures
            links@.len() == links_of(self.listing()).len(),
            forall|i: int|
                0 <= i < links@.len() ==> (#[trigger] links@[i])@ == links_of(self.listing())[i],
    {
        let mut links: Vec<&KnownFileLink> = Vec::new();
        let ghost list = self.listing();
        let mut i: usize = 0;
        proof {
            assert(list.take(0) =~= Seq::<EffectView>::empty());
        }
        while i < self.resources.len()
            invariant
                i <= self.resources@.len(),
                list == known_views(self.resources@),
                links@.len() == links_of(list.take(i as int)).len(),
                forall|k: int|
                    0 <= k < links@.len() ==> (#[trigger] links@[k])@ == links_of(
                        list.take(i as int),
                    )[k],
            decreases self.resources.len() - i,
        {
            proof {
                assert(list.take(i + 1).drop_last() =~= list.take(i as int));
                assert(list.take(i + 1).last() == self.resources@[i as int]@);
            }
            match &self.resources[i] {
                KnownResource::FileLink(link) => {
                    links.push(link);
                },
                KnownResource::FileCopy(_) => {},
            }
            i += 1;
        }
        assert(list.take(i as int) =~= list);
        links
    }

    /// The facts in the order of their resources, whatever their effect.
    pub fn variants(&self) -> (resources: &Vec<KnownResource>)
        ensures
            known_views(resources@) == self.listing(),
            sorted(self.listing()),
            distinct(self.listing()),
            by_id(self.listing()) == self@,
    {
        self.resources()
    }

    /// What is recorded of a resource.
    pub fn get_variant(&self, resource_id: &FullyQualifiedResourceId) -> (found: Option<
        &KnownResource,
    >)
        ensures
            match found {
                Some(resource) => self@.contains_key(resource_id@) && self@[resource_id@]
                    == resource@,
                None => !self@.contains_key(resource_id@),
            },
    {
        proof {
            use_type_invariant(self);
        }
        let (place, present) = find_place(&self.resources, resource_id);
        if present {
            proof {
                lemma_sorted_at(known_views(self.resources@), place as int);
            }
            Some(&self.resources[place])
        } else {
            proof {
                lemma_absent(known_views(self.resources@), place as int, resource_id@);
            }
            None
        }
    }

    /// The facts without those of one resource, in order.
    fn without(&self, resource_id: &FullyQualifiedResourceId) -> (rest: Vec<KnownResource>)
        ensures
            sorted(known_views(rest@)),
            by_id(known_views(rest@)) == self@.remove(resource_id@),
            keyed(self@),
            targets_differ(self@),
    {
        proof {
            use_type_invariant(self);
            lemma_sorted_distinct(known_views(self.resources@));
        }
        let mut rest: Vec<KnownResource> = Vec::new();
        let ghost list = known_views(self.resources@);
        let (place, present) = find_place(&self.resources, resource_id);
        let mut i: usize = 0;
        while i < self.resources.len()
            invariant
                i <= self.resources@.len(),
                list == known_views(self.resources@),
                rest@.len() == i,
                known_views(rest@) == list.take(i as int),
            decreases self.resources.len() - i,
        {
            rest.push(self.resources[i].clone());
            assert(known_views(rest@) =~= list.take(i + 1));
            i += 1;
        }
        assert(list.take(i as int) =~= list);
        if present {
            proof {
                lemma_remove(list, place as int);
            }
            rest.remove(place);
            assert(known_views(rest@) =~= list.remove(place as int));
        } else {
            proof {
                lemma_absent(list, place as int, resource_id@);
                assert(self@.remove(resource_id@) =~= self@);
            }
        }
        rest
    }

    /// The state with one verified effect recorded, in place of what its resource had.
    fn with_effect(&self, resource: KnownResource) -> (outcome: Result<Self, KnownStateError>)
        ensures
            upserts(self@, resource@, outcome),
    {
        let ghost effect = resource@;
        let ghost id = effect.resource_id();
        let mut rest = self.without(resource.resource_id());
        let ghost before = known_views(rest@);
        let (place, present) = find_place(&rest, resource.resource_id());
        proof {
            if present {
                lemma_sorted_at(before, place as int);
            }
            lemma_insert(before, place as int, effect);
            assert(self@.remove(id).insert(id, effect) =~= self@.insert(id, effect));
        }
        rest.insert(place, resource);
        let ghost list = before.insert(place as int, effect);
        assert(known_views(rest@) =~= list);
        let outcome = Self::new(rest);
        proof {
            lemma_recorded(self@, effect, list, outcome);
        }
        outcome
    }

    /// The state with one verified link recorded.
    pub fn with_upserted(&self, resource: KnownFileLink) -> (outcome: Result<Self, KnownStateError>)
        ensures
            upserts(self@, EffectView::Link(resource@), outcome),
    {
        self.with_effect(KnownResource::FileLink(resource))
    }

    /// The state with one verified copy recorded.
    pub fn with_upserted_copy(&self, resource: KnownFileCopy) -> (outcome: Result<
        Self,
        KnownStateError,
    >)
        ensures
            upserts(self@, EffectView::Copy(resource@), outcome),
    {
        self.with_effect(KnownResource::FileCopy(resource))
    }

    /// The state without one resource that it holds.
    fn with_forgotten(&self, resource_id: &FullyQualifiedResourceId) -> (outcome: Result<
        Self,
        KnownStateError,
    >)
        ensures
            outcome matches Ok(state) && state@ == self@.remove(resource_id@),
    {
        let rest = self.without(resource_id);
        let ghost list = known_views(rest@);
        proof {
            assert(targets_differ(by_id(list)));
            lemma_sorted_distinct(list);
        }
        let outcome = Self::new(rest);
        proof {
            lemma_distinct_builds(list, outcome);
        }
        outcome
    }

    /// The state without one exact verified link.
    ///
    /// The complete fact is required, so that a newer or different fact of the same resource is
    /// never forgotten in its place.
    pub fn with_removed(&self, expected: &KnownFileLink) -> (outcome: Result<Self, KnownStateError>)
        ensures
            removes(self@, EffectView::Link(expected@), outcome),
    {
        match self.get_variant(expected.resource_id()) {
            None => Err(
                KnownStateError::MissingResource { resource_id: expected.resource_id().clone() },
            ),
            Some(KnownResource::FileLink(actual)) if actual.same(expected) => self.with_forgotten(
                expected.resource_id(),
            ),
            Some(_) => Err(
                KnownStateError::ResourceMismatch { resource_id: expected.resource_id().clone() },
            ),
        }
    }

    /// The state without one exact verified copy.
    pub fn with_removed_copy(&self, expected: &KnownFileCopy) -> (outcome: Result<
        Self,
        KnownStateError,
    >)
        ensures
            removes(self@, EffectView::Copy(expected@), outcome),
    {
        match self.get_variant(expected.resource_id()) {
            None => Err(
                KnownStateError::MissingResource { resource_id: expected.resource_id().clone() },
            ),
            Some(KnownResource::FileCopy(actual)) if actual.same(expected) => self.with_forgotten(
                expected.resource_id(),
            ),
            Some(_) => Err(
                KnownStateError::ResourceMismatch { resource_id: expected.resource_id().clone() },
            ),
        }
    }

    /// The state without a resource whose target was freshly proven missing.
    pub fn with_missing_resource_removed(&self, resource_id: &FullyQualifiedResourceId) -> (outcome:
        Result<Self, KnownStateError>)
        ensures
            match outcome {
                Ok(state) => self@.contains_key(resource_id@) && state@ == self@.remove(
                    resource_id@,
                ),
                Err(KnownStateError::MissingResource { resource_id: absent }) =>
                    !self@.contains_key(resource_id@) && absent@ == resource_id@,
                Err(_) => false,
            },
    {
        if self.get_variant(resource_id).is_none() {
            return Err(KnownStateError::MissingResource { resource_id: resource_id.clone() });
        }
        self.with_forgotten(resource_id)
    }

    /// The state with one exact managed identity replaced by another resource's verified link.
    pub fn with_replaced_identity(
        &self,
        expected_old: &KnownFileLink,
        new_resource: KnownFileLink,
    ) -> (outcome: Result<Self, KnownStateError>)
        ensures
            replaces_identity(
                self@,
                EffectView::Link(expected_old@),
                EffectView::Link(new_resource@),
                outcome,
            ),
    {
        match self.get_variant(expected_old.resource_id()) {
            None => Err(
                KnownStateError::MissingResource { resource_id: expected_old.resource_id().clone() },
            ),
            Some(KnownResource::FileLink(actual)) if actual.same(expected_old) => {
                if self.get_variant(new_resource.resource_id()).is_some() {
                    return Err(
                        KnownStateError::DestinationResourcePresent {
                            resource_id: new_resource.resource_id().clone(),
                        },
                    );
                }
                match self.with_forgotten(expected_old.resource_id()) {
                    Ok(rest) => rest.with_effect(KnownResource::FileLink(new_resource)),
                    Err(error) => Err(error),
                }
            },
            Some(_) => Err(
                KnownStateError::ResourceMismatch { resource_id: expected_old.resource_id().clone() },
            ),
        }
    }
}

/// What handing one exact fact's target over to another resource gives.
pub open spec fn replaces_identity(
    known: Map<Seq<char>, EffectView>,
    old: EffectView,
    new: EffectView,
    outcome: Result<KnownState, KnownStateError>,
) -> bool {
    if !known.contains_key(old.resource_id()) {
        outcome matches Err(KnownStateError::MissingResource { resource_id }) && resource_id@
            == old.resource_id()
    } else if !same_effect(known[old.resource_id()], old) {
        outcome matches Err(KnownStateError::ResourceMismatch { resource_id }) && resource_id@
            == old.resource_id()
    } else if known.contains_key(new.resource_id()) {
        outcome matches Err(KnownStateError::DestinationResourcePresent { resource_id })
            && resource_id@ == new.resource_id()
    } else {
        upserts(known.remove(old.resource_id()), new, outcome)
    }
}

proof fn lemma_distinct_builds(list: Seq<EffectView>, outcome: Result<KnownState, KnownStateError>)
    requires
        distinct(list),
        builds(list, outcome),
    ensures
        outcome is Ok,
{
    match outcome {
        Err(KnownStateError::DuplicateResourceId { resource_id }) => {
            let i = choose|i: int|
                #[trigger] repeats_id(list, i) && resource_id@ == list[i].resource_id();
            assert(!id_taken(list, i));
        },
        Err(
            KnownStateError::DuplicateTarget {
                target_path,
                first_resource_id,
                duplicate_resource_id,
            },
        ) => {
            let (i, j) = choose|i: int, j: int|
                #[trigger] repeats_target(list, i, j) && target_path@ == list[i].target_path()
                    && first_resource_id@ == list[j].resource_id() && duplicate_resource_id@
                    == list[i].resource_id();
            lemma_distinct(list, i, j);
        },
        _ => {},
    }
}

proof fn lemma_recorded(
    known: Map<Seq<char>, EffectView>,
    effect: EffectView,
    list: Seq<EffectView>,
    outcome: Result<KnownState, KnownStateError>,
)
    requires
        keyed(known),
        targets_differ(known),
        sorted(list),
        by_id(list) == known.insert(effect.resource_id(), effect),
        builds(list, outcome),
    ensures
        upserts(known, effect, outcome),
{
    let id = effect.resource_id();
    match outcome {
        Ok(state) => {
            lemma_by_id(list);
        },
        Err(KnownStateError::DuplicateResourceId { resource_id }) => {
            let i = choose|i: int|
                #[trigger] repeats_id(list, i) && resource_id@ == list[i].resource_id();
            let j = choose|j: int|
                0 <= j < i && (#[trigger] list[j]).resource_id() == list[i].resource_id();
            lemma_sorted(list, i, j);
        },
        Err(
            KnownStateError::DuplicateTarget {
                target_path,
                first_resource_id,
                duplicate_resource_id,
            },
        ) => {
            let (i, j) = choose|i: int, j: int|
                #[trigger] repeats_target(list, i, j) && target_path@ == list[i].target_path()
                    && first_resource_id@ == list[j].resource_id() && duplicate_resource_id@
                    == list[i].resource_id();
            lemma_sorted_at(list, i);
            lemma_sorted_at(list, j);
            let a = list[j].resource_id();
            let b = list[i].resource_id();
            assert(precedes(a, b));
            lemma_precedes_irreflexive(a);
            let other = if b == id { a } else { b };
            if a != id && b != id {
                assert(known[a].target_key() == known[b].target_key());
            }
            assert(known.contains_key(other));
            if other == b {
                if precedes(b, a) {
                    lemma_precedes_transitive(a, b, a);
                }
            }
            assert(clashes(known, effect, outcome->Err_0));
        },
        _ => {},
    }
}

impl KnownStateError {
    /// What the error says.
    pub open spec fn message(self) -> Seq<char> {
        match self {
            KnownStateError::DuplicateResourceId { resource_id } => "duplicate Known resource ID: "@
                + resource_id@,
            KnownStateError::DuplicateTarget {
                target_path,
                first_resource_id,
                duplicate_resource_id,
            } => "Known target "@ + target_path@ + " is recorded for both "@ + first_resource_id@
                + " and "@ + duplicate_resource_id@,
            KnownStateError::MissingResource { resource_id } =>
                "Known state does not contain resource "@ + resource_id@,
            KnownStateError::ResourceMismatch { resource_id } => "Known state resource "@
                + resource_id@ + " does not match the verified fact selected for removal"@,
            KnownStateError::DestinationResourcePresent { resource_id } =>
                "Known state already contains identity-handoff destination "@ + resource_id@,
        }
    }

    /// What the error says.
    pub fn to_text(&self) -> (text: String)
        ensures
            text@ == self.message(),
    {
        match self {
            KnownStateError::DuplicateResourceId { resource_id } => copy_of(
                "duplicate Known resource ID: ",
            ).concat(resource_id.as_str()),
            KnownStateError::DuplicateTarget {
                target_path,
                first_resource_id,
                duplicate_resource_id,
            } => copy_of("Known target ").concat(target_path.as_path()).concat(
                " is recorded for both ",
            ).concat(first_resource_id.as_str()).concat(" and ").concat(
                duplicate_resource_id.as_str(),
            ),
            KnownStateError::MissingResource { resource_id } => copy_of(
                "Known state does not contain resource ",
            ).concat(resource_id.as_str()),
            KnownStateError::ResourceMismatch { resource_id } => copy_of(
                "Known state resource ",
            ).concat(resource_id.as_str()).concat(
                " does not match the verified fact selected for removal",
            ),
            KnownStateError::DestinationResourcePresent { resource_id } => copy_of(
                "Known state already contains identity-handoff destination ",
            ).concat(resource_id.as_str()),
        }
    }
}

/// A recorded effect is read back under its resource, and no other resource is touched.
pub proof fn recorded_effect_reads_back(
    known: Map<Seq<char>, EffectView>,
    effect: EffectView,
    state: KnownState,
    other: Seq<char>,
)
    requires
        upserts(known, effect, Ok(state)),
    ensures
        state@.contains_key(effect.resource_id()),
        state@[effect.resource_id()] == effect,
        other != effect.resource_id() ==> (state@.contains_key(other) == known.contains_key(other)
            && state@[other] == known[other]),
{
}

/// An effect is recorded exactly when no other resource has a fact at its target.
pub proof fn effect_is_recorded_unless_its_target_is_owned(
    known: Map<Seq<char>, EffectView>,
    effect: EffectView,
    outcome: Result<KnownState, KnownStateError>,
)
    requires
        keyed(known),
        targets_differ(known),
        upserts(known, effect, outcome),
    ensures
        outcome is Ok <==> forall|other: Seq<char>|
            #[trigger] known.contains_key(other) && other != effect.resource_id()
                ==> known[other].target_key() != effect.target_key(),
{
    if outcome is Ok {
        let after = (outcome->Ok_0)@;
        assert forall|other: Seq<char>|
            #[trigger] known.contains_key(other) && other
                != effect.resource_id() implies known[other].target_key()
            != effect.target_key() by {
            assert(after[other] == known[other]);
            assert(after[effect.resource_id()] == effect);
        }
    }
}

/// Forgetting an effect that was just recorded of a new resource gives the state before.
pub proof fn forgetting_undoes_recording(
    known: Map<Seq<char>, EffectView>,
    effect: EffectView,
    recorded: KnownState,
    forgotten: Result<KnownState, KnownStateError>,
)
    requires
        !known.contains_key(effect.resource_id()),
        upserts(known, effect, Ok(recorded)),
        removes(recorded@, effect, forgotten),
    ensures
        forgotten matches Ok(state) && state@ == known,
{
    assert(known.insert(effect.resource_id(), effect).remove(effect.resource_id()) =~= known);
}

/// A handoff at one target always succeeds once its facts are right, replaces exactly one
/// identity, and leaves the target owned by the new one.
pub proof fn handoff_replaces_exactly_one_identity(
    known: Map<Seq<char>, EffectView>,
    old: EffectView,
    new: EffectView,
    outcome: Result<KnownState, KnownStateError>,
    other: Seq<char>,
)
    requires
        keyed(known),
        targets_differ(known),
        known.contains_key(old.resource_id()),
        same_effect(known[old.resource_id()], old),
        !known.contains_key(new.resource_id()),
        new.target_key() == old.target_key(),
        replaces_identity(known, old, new, outcome),
    ensures
        outcome is Ok,
        ({
            let state = (outcome->Ok_0)@;
            &&& !state.contains_key(old.resource_id())
            &&& state.contains_key(new.resource_id()) && state[new.resource_id()] == new
            &&& other != old.resource_id() && other != new.resource_id() ==> (
            state.contains_key(other) == known.contains_key(other) && state[other] == known[other])
        }),
{
    let rest = known.remove(old.resource_id());
    if outcome is Err {
        let owner = choose|owner: Seq<char>|
            {
                &&& #[trigger] rest.contains_key(owner)
                &&& owner != new.resource_id()
                &&& rest[owner].target_key() == new.target_key()
            };
        assert(known[owner].target_key() == known[old.resource_id()].target_key());
    }
}

/// A recorded link holds its source, and stands somewhere else. What is not so is what is answered, the
/// place first.
pub proof fn recorded_link_holds_its_source_elsewhere(
    resource_id: FullyQualifiedResourceId,
    source_path: ResolvedPath,
    target_path: ResolvedPath,
    link_target: LinkTarget,
    outcome: Result<KnownFileLink, KnownFileLinkError>,
)
    requires
        call_ensures(
            KnownFileLink::new,
            (resource_id, source_path, target_path, link_target),
            outcome,
        ),
    ensures
        outcome is Ok <==> !same_path(source_path@, target_path@) && same_path(
            link_target@,
            source_path@,
        ),
        (outcome matches Err(error) ==> (error is SourceEqualsTarget <==> same_path(
            source_path@,
            target_path@,
        ))),
        (outcome matches Ok(link) ==> link@.resource_id == resource_id@ && link@.source_path
            == source_path@ && link@.target_path == target_path@ && link@.link_target
            == link_target@),
{
}

/// A recorded copy stands elsewhere than its source.
pub proof fn recorded_copy_stands_elsewhere(
    resource_id: FullyQualifiedResourceId,
    source_path: ResolvedPath,
    target_path: ResolvedPath,
    content_fingerprint: ContentFingerprint,
    outcome: Result<KnownFileCopy, KnownFileCopyError>,
)
    requires
        call_ensures(
            KnownFileCopy::new,
            (resource_id, source_path, target_path, content_fingerprint),
            outcome,
        ),
    ensures
        outcome is Ok <==> !same_path(source_path@, target_path@),
        (outcome matches Ok(copy) ==> copy@.resource_id == resource_id@ && copy@.source_path
            == source_path@ && copy@.target_path == target_path@ && copy@.content_fingerprint
            == content_fingerprint@),
{
}

/// Two recorded effects are the same exactly if all of their parts are: the resource, the source, the
/// target and the content.
pub proof fn recorded_effects_are_the_same_part_by_part(
    left: KnownFileLink,
    right: KnownFileLink,
    links: bool,
    first: KnownFileCopy,
    second: KnownFileCopy,
    copies: bool,
)
    requires
        call_ensures(KnownFileLink::same, (&left, &right), links),
        call_ensures(KnownFileCopy::same, (&first, &second), copies),
    ensures
        links <==> left@.resource_id == right@.resource_id && same_path(
            left@.source_path,
            right@.source_path,
        ) && same_path(left@.target_path, right@.target_path) && same_path(
            left@.link_target,
            right@.link_target,
        ),
        copies <==> first@.resource_id == second@.resource_id && same_path(
            first@.source_path,
            second@.source_path,
        ) && same_path(first@.target_path, second@.target_path) && first@.content_fingerprint
            == second@.content_fingerprint,
{
}

/// A state can be built exactly if no two facts are of one resource and no two stand at one target.
pub proof fn state_is_built_exactly_of_separate_facts(
    resources: Vec<KnownResource>,
    outcome: Result<KnownState, KnownStateError>,
)
    requires
        call_ensures(KnownState::new, (resources,), outcome),
    ensures
        outcome is Ok <==> forall|i: int, j: int|
            0 <= i < j < resources@.len() ==> (#[trigger] resources@[i])@.resource_id() != (
            #[trigger] resources@[j])@.resource_id() && !same_path(
                resources@[i]@.target_path(),
                resources@[j]@.target_path(),
            ),
        (outcome matches Ok(state) ==> forall|i: int|
            0 <= i < resources@.len() ==> state@.contains_key(
                (#[trigger] resources@[i])@.resource_id(),
            ) && state@[resources@[i]@.resource_id()] == resources@[i]@),
        (outcome matches Ok(state) ==> forall|id: Seq<char>| #[trigger]
            state@.contains_key(id) ==> exists|i: int|
                0 <= i < resources@.len() && (#[trigger] resources@[i])@.resource_id() == id),
{
    let list = known_views(resources@);
    assert(list.len() == resources@.len());
    match outcome {
        Ok(state) => {
            lemma_by_id(list);
            assert forall|i: int, j: int| 0 <= i < j < resources@.len() implies (
            #[trigger] resources@[i])@.resource_id() != (#[trigger] resources@[j])@.resource_id()
                && !same_path(
                resources@[i]@.target_path(),
                resources@[j]@.target_path(),
            ) by {
                assert(list[i] == resources@[i]@ && list[j] == resources@[j]@);
                if list[i].resource_id() == list[j].resource_id() || list[i].target_key()
                    == list[j].target_key() {
                    lemma_distinct(list, i, j);
                }
            }
            assert forall|i: int| 0 <= i < resources@.len() implies state@.contains_key(
                (#[trigger] resources@[i])@.resource_id(),
            ) && state@[resources@[i]@.resource_id()] == resources@[i]@ by {
                assert(list[i] == resources@[i]@);
            }
            assert forall|id: Seq<char>| #[trigger] state@.contains_key(id) implies exists|i: int|
                0 <= i < resources@.len() && (#[trigger] resources@[i])@.resource_id() == id by {
                let i = choose|i: int|
                    0 <= i < list.len() && (#[trigger] list[i]).resource_id() == id;
                assert(resources@[i]@.resource_id() == id);
            }
        },
        Err(KnownStateError::DuplicateResourceId { .. }) => {
            let i = choose|i: int| #[trigger] repeats_id(list, i);
            let j = choose|j: int|
                0 <= j < i && (#[trigger] list[j]).resource_id() == list[i].resource_id();
            assert(resources@[j]@.resource_id() == resources@[i]@.resource_id());
        },
        Err(_) => {
            let (i, j) = choose|i: int, j: int| #[trigger] repeats_target(list, i, j);
            assert(same_path(resources@[j]@.target_path(), resources@[i]@.target_path()));
        },
    }
}

/// A fact is forgotten exactly if it is on record just as it was expected. One that is not on record,
/// and one that is on record otherwise, are told apart, and nothing else is forgotten with it.
pub proof fn fact_is_forgotten_exactly_as_expected(
    state: KnownState,
    expected: KnownFileLink,
    outcome: Result<KnownState, KnownStateError>,
)
    requires
        call_ensures(KnownState::with_removed, (&state, &expected), outcome),
    ensures
        ({
            let id = expected@.resource_id;
            let found = state@.contains_key(id);
            let as_expected = found && (state@[id] matches EffectView::Link(link)
                && link.resource_id == expected@.resource_id && same_path(
                link.source_path,
                expected@.source_path,
            ) && same_path(link.target_path, expected@.target_path) && same_path(
                link.link_target,
                expected@.link_target,
            ));
            &&& outcome is Ok <==> as_expected
            &&& outcome matches Ok(after) ==> after@ == state@.remove(id)
            &&& outcome matches Err(error) ==> (error is MissingResource <==> !found) && (error
                is ResourceMismatch <==> found)
        }),
{
}

/// A copy is forgotten exactly if it is on record just as it was expected.
pub proof fn copy_is_forgotten_exactly_as_expected(
    state: KnownState,
    expected: KnownFileCopy,
    outcome: Result<KnownState, KnownStateError>,
)
    requires
        call_ensures(KnownState::with_removed_copy, (&state, &expected), outcome),
    ensures
        ({
            let id = expected@.resource_id;
            let found = state@.contains_key(id);
            let as_expected = found && (state@[id] matches EffectView::Copy(copy)
                && copy.resource_id == expected@.resource_id && same_path(
                copy.source_path,
                expected@.source_path,
            ) && same_path(copy.target_path, expected@.target_path) && copy.content_fingerprint
                == expected@.content_fingerprint);
            &&& outcome is Ok <==> as_expected
            &&& outcome matches Ok(after) ==> after@ == state@.remove(id)
            &&& outcome matches Err(error) ==> (error is MissingResource <==> !found) && (error
                is ResourceMismatch <==> found)
        }),
{
}

/// A fact whose target is gone is forgotten exactly if it is on record, whatever it says.
pub proof fn missing_fact_is_forgotten_exactly_if_it_is_on_record(
    state: KnownState,
    resource_id: FullyQualifiedResourceId,
    outcome: Result<KnownState, KnownStateError>,
)
    requires
        call_ensures(KnownState::with_missing_resource_removed, (&state, &resource_id), outcome),
    ensures
        outcome is Ok <==> state@.contains_key(resource_id@),
        (outcome matches Ok(after) ==> after@ == state@.remove(resource_id@)),
        (outcome matches Err(error) ==> error is MissingResource),
{
}

/// A fact changes its owner only if it is on record just as it was expected and the new owner has none.
/// What is not so is told apart, in this order.
pub proof fn fact_changes_its_owner_only_as_expected(
    state: KnownState,
    expected_old: KnownFileLink,
    new_resource: KnownFileLink,
    outcome: Result<KnownState, KnownStateError>,
)
    requires
        call_ensures(
            KnownState::with_replaced_identity,
            (&state, &expected_old, new_resource),
            outcome,
        ),
    ensures
        ({
            let old_id = expected_old@.resource_id;
            let new_id = new_resource@.resource_id;
            let found = state@.contains_key(old_id);
            let as_expected = found && (state@[old_id] matches EffectView::Link(link)
                && link.resource_id == old_id && same_path(
                link.source_path,
                expected_old@.source_path,
            ) && same_path(link.target_path, expected_old@.target_path) && same_path(
                link.link_target,
                expected_old@.link_target,
            ));
            let taken = state@.contains_key(new_id);
            &&& !found ==> (outcome matches Err(KnownStateError::MissingResource { resource_id })
                && resource_id@ == old_id)
            &&& found && !as_expected ==> (outcome matches Err(
                KnownStateError::ResourceMismatch { resource_id },
            ) && resource_id@ == old_id)
            &&& as_expected && taken ==> (outcome matches Err(
                KnownStateError::DestinationResourcePresent { resource_id },
            ) && resource_id@ == new_id)
            &&& outcome matches Ok(after) ==> as_expected && !taken && after@ == state@.remove(
                old_id,
            ).insert(new_id, EffectView::Link(new_resource@))
            &&& as_expected && !taken && outcome is Err ==> outcome->Err_0 is DuplicateTarget
        }),
{
}

/// An effect is recorded in the place of what was recorded of its resource, exactly if no other
/// resource has a fact at its target. The two resources of a refusal are named in their order.
pub proof fn effect_is_recorded_exactly_where_no_other_stands(
    state: KnownState,
    link: KnownFileLink,
    outcome: Result<KnownState, KnownStateError>,
)
    requires
        keyed(state@),
        targets_differ(state@),
        call_ensures(KnownState::with_upserted, (&state, link), outcome),
    ensures
        outcome is Ok <==> forall|other: Seq<char>|
            #[trigger] state@.contains_key(other) && other != link@.resource_id ==> !same_path(
                state@[other].target_path(),
                link@.target_path,
            ),
        (outcome matches Ok(after) ==> after@ == state@.insert(
            link@.resource_id,
            EffectView::Link(link@),
        )),
        (outcome matches Err(error) ==> (error matches KnownStateError::DuplicateTarget {
            first_resource_id,
            duplicate_resource_id,
            ..
        } && precedes(first_resource_id@, duplicate_resource_id@) && (first_resource_id@
            == link@.resource_id || duplicate_resource_id@ == link@.resource_id))),
{
    effect_is_recorded_unless_its_target_is_owned(state@, EffectView::Link(link@), outcome);
    if let Err(error) = outcome {
        lemma_named_in_order(state@, EffectView::Link(link@), error);
    }
}

proof fn lemma_named_in_order(
    known: Map<Seq<char>, EffectView>,
    effect: EffectView,
    error: KnownStateError,
)
    requires
        clashes(known, effect, error),
    ensures
        error matches KnownStateError::DuplicateTarget {
            first_resource_id,
            duplicate_resource_id,
            ..
        } && precedes(first_resource_id@, duplicate_resource_id@) && (first_resource_id@
            == effect.resource_id() || duplicate_resource_id@ == effect.resource_id()),
{
    if let KnownStateError::DuplicateTarget {
        target_path,
        first_resource_id,
        duplicate_resource_id,
    } = error {
        let other = choose|other: Seq<char>|
            {
                &&& #[trigger] known.contains_key(other)
                &&& other != effect.resource_id()
                &&& known[other].target_key() == effect.target_key()
                &&& if precedes(other, effect.resource_id()) {
                    &&& first_resource_id@ == other
                    &&& duplicate_resource_id@ == effect.resource_id()
                    &&& target_path@ == effect.target_path()
                } else {
                    &&& first_resource_id@ == effect.resource_id()
                    &&& duplicate_resource_id@ == other
                    &&& target_path@ == known[other].target_path()
                }
            };
        lemma_precedes_total(other, effect.resource_id());
    }
}

/// Why a state is refused names the resources, each reason in its own words.
pub proof fn refused_state_says_why(error: KnownStateError, text: String)
    requires
        call_ensures(KnownStateError::to_text, (&error,), text),
    ensures
        match error {
            KnownStateError::DuplicateResourceId { resource_id } => text@
                == "duplicate Known resource ID: "@ + resource_id@,
            KnownStateError::DuplicateTarget {
                target_path,
                first_resource_id,
                duplicate_resource_id,
            } => opens(text@, "Known target "@ + target_path@) && closes(
                text@,
                " "@ + first_resource_id@ + " and "@ + duplicate_resource_id@,
            ),
            KnownStateError::MissingResource { resource_id } => text@
                == "Known state does not contain resource "@ + resource_id@,
            KnownStateError::ResourceMismatch { resource_id } => opens(
                text@,
                "Known state resource "@ + resource_id@ + " does not match"@,
            ),
            KnownStateError::DestinationResourcePresent { resource_id } => closes(
                text@,
                "already contains identity-handoff destination "@ + resource_id@,
            ),
        },
{
    reveal_strlit(" is recorded for both ");
    reveal_strlit(" ");
    reveal_strlit(" does not match the verified fact selected for removal");
    reveal_strlit(" does not match");
    reveal_strlit("Known state already contains identity-handoff destination ");
    reveal_strlit("already contains identity-handoff destination ");
}

/// A fact that cannot be trusted is refused in words of its own.
pub proof fn refused_fact_says_why(
    link: KnownFileLinkError,
    of_link: String,
    copy: KnownFileCopyError,
    of_copy: String,
)
    requires
        call_ensures(KnownFileLinkError::to_text, (&link,), of_link),
        call_ensures(KnownFileCopyError::to_text, (&copy,), of_copy),
    ensures
        link is SourceEqualsTarget ==> of_link@
            == "a Known file-link source and target must not be the same path"@,
        link is LinkTargetDiffersFromSource ==> of_link@
            == "a Known file-link target must equal its recorded resolved source path"@,
        of_copy@ == "a Known file-copy source and target must not be the same path"@,
{
}

/// Every part of a recorded link reads back as it was given.
pub proof fn recorded_link_reads_back(
    resource_id: FullyQualifiedResourceId,
    source_path: ResolvedPath,
    target_path: ResolvedPath,
    link_target: LinkTarget,
    made: KnownFileLink,
)
    requires
        call_ensures(
            KnownFileLink::new,
            (resource_id, source_path, target_path, link_target),
            Ok(made),
        ),
    ensures
        forall|read: &FullyQualifiedResourceId|
            #[trigger] call_ensures(KnownFileLink::resource_id, (&made,), read) ==> read@ == resource_id@,
        forall|read: &ResolvedPath|
            #[trigger] call_ensures(KnownFileLink::source_path, (&made,), read) ==> read@ == source_path@,
        forall|read: &ResolvedPath|
            #[trigger] call_ensures(KnownFileLink::target_path, (&made,), read) ==> read@ == target_path@,
        forall|read: &LinkTarget|
            #[trigger] call_ensures(KnownFileLink::link_target, (&made,), read) ==> read@ == link_target@,
{
}

/// Every part of a recorded copy reads back as it was given.
pub proof fn recorded_copy_reads_back(
    resource_id: FullyQualifiedResourceId,
    source_path: ResolvedPath,
    target_path: ResolvedPath,
    content_fingerprint: ContentFingerprint,
    made: KnownFileCopy,
)
    requires
        call_ensures(
            KnownFileCopy::new,
            (resource_id, source_path, target_path, content_fingerprint),
            Ok(made),
        ),
    ensures
        forall|read: &FullyQualifiedResourceId|
            #[trigger] call_ensures(KnownFileCopy::resource_id, (&made,), read) ==> read@ == resource_id@,
        forall|read: &ResolvedPath|
            #[trigger] call_ensures(KnownFileCopy::source_path, (&made,), read) ==> read@ == source_path@,
        forall|read: &ResolvedPath|
            #[trigger] call_ensures(KnownFileCopy::target_path, (&made,), read) ==> read@ == target_path@,
        forall|read: &ContentFingerprint|
            #[trigger] call_ensures(KnownFileCopy::content_fingerprint, (&made,), read) ==> read@ == content_fingerprint@,
{
}

} // verus!
