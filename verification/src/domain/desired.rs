//! The resources that one root profile wants.

use vstd::prelude::*;
use vstd::string::*;
use crate::domain::effects::{
    belongs_at, by_id, distinct, distinct_until, id_taken, keyed, lemma_absent, lemma_by_id,
    lemma_by_id_take, lemma_distinct, lemma_distinct_take, lemma_insert, lemma_sorted_at, lemma_sorted_distinct,
    repeats_id, repeats_target, sorted, target_taken, targets_differ, EffectView, LinkView,
};
use crate::domain::file_copy::ResolvedFileCopy;
use crate::domain::file_link::ResolvedFileLink;
use crate::domain::ids::{FullyQualifiedResourceId, ProfileId};
use crate::domain::known::links_of;
use crate::domain::paths::{same_path, ResolvedPath};
use crate::text::{
    closes, copy_of, lemma_precedes_irreflexive, lemma_precedes_total, lemma_precedes_transitive,
    opens, precedes,
};

verus! {

/// A resolved file effect.
#[derive(Debug, PartialEq, Eq)]
pub enum ResolvedResource {
    FileLink(ResolvedFileLink),
    FileCopy(ResolvedFileCopy),
}

impl View for ResolvedResource {
    type V = EffectView;

    open spec fn view(&self) -> EffectView {
        match self {
            ResolvedResource::FileLink(link) => EffectView::Link(link@),
            ResolvedResource::FileCopy(copy) => EffectView::Copy(copy@),
        }
    }
}

impl Clone for ResolvedResource {
    fn clone(&self) -> (copy: Self)
        ensures
            copy@ == self@,
    {
        match self {
            ResolvedResource::FileLink(link) => ResolvedResource::FileLink(link.clone()),
            ResolvedResource::FileCopy(copy) => ResolvedResource::FileCopy(copy.clone()),
        }
    }
}

impl ResolvedResource {
    /// The resource that wants the effect.
    pub fn resource_id(&self) -> (id: &FullyQualifiedResourceId)
        ensures
            id@ == self@.resource_id(),
    {
        match self {
            ResolvedResource::FileLink(link) => link.resource_id(),
            ResolvedResource::FileCopy(copy) => copy.resource_id(),
        }
    }

    /// Where the effect is wanted.
    pub fn target_path(&self) -> (path: &ResolvedPath)
        ensures
            path@ == self@.target_path(),
    {
        match self {
            ResolvedResource::FileLink(link) => link.target_path(),
            ResolvedResource::FileCopy(copy) => copy.target_path(),
        }
    }
}

/// The effects of a list of resources, in order.
pub open spec fn resolved_views(list: Seq<ResolvedResource>) -> Seq<EffectView> {
    Seq::new(list.len(), |i: int| list[i]@)
}

/// The definitions of a list of links, in order.
pub open spec fn link_views(list: Seq<ResolvedFileLink>) -> Seq<LinkView> {
    Seq::new(list.len(), |i: int| list[i]@)
}

/// The complete resource set selected by one root profile.
///
/// The view gives the wanted effects in the order of their resources.
#[derive(Debug, PartialEq, Eq)]
pub struct ResolvedDesired {
    root_profile: ProfileId,
    resources: Vec<ResolvedFileLink>,
    variants: Vec<ResolvedResource>,
}

impl View for ResolvedDesired {
    type V = Seq<EffectView>;

    closed spec fn view(&self) -> Seq<EffectView> {
        resolved_views(self.variants@)
    }
}

/// The reason a resource set cannot be canonical.
#[derive(Debug, PartialEq, Eq)]
pub enum ResolvedDesiredError {
    DuplicateResourceId { resource_id: FullyQualifiedResourceId },
    DuplicateTarget {
        target_path: ResolvedPath,
        first_resource_id: FullyQualifiedResourceId,
        duplicate_resource_id: FullyQualifiedResourceId,
    },
}

/// What building a resource set from a list of effects gives: the first clash decides.
pub open spec fn desires(
    list: Seq<EffectView>,
    outcome: Result<ResolvedDesired, ResolvedDesiredError>,
) -> bool {
    match outcome {
        Ok(desired) => distinct(list) && sorted(desired@) && by_id(desired@) == by_id(list),
        Err(ResolvedDesiredError::DuplicateResourceId { resource_id }) => exists|i: int|
            #[trigger] repeats_id(list, i) && resource_id@ == list[i].resource_id(),
        Err(
            ResolvedDesiredError::DuplicateTarget {
                target_path,
                first_resource_id,
                duplicate_resource_id,
            },
        ) => exists|i: int, j: int|
            #[trigger] repeats_target(list, i, j) && target_path@ == list[i].target_path()
                && first_resource_id@ == list[j].resource_id() && duplicate_resource_id@
                == list[i].resource_id(),
    }
}

/// Where a resource is, or belongs, in a sorted list.
fn find_place(resources: &Vec<ResolvedResource>, id: &FullyQualifiedResourceId) -> (place: (usize, bool))
    requires
        sorted(resolved_views(resources@)),
    ensures
        place.0 <= resources@.len(),
        place.1 ==> place.0 < resources@.len() && resources@[place.0 as int]@.resource_id() == id@,
        !place.1 ==> belongs_at(resolved_views(resources@), place.0 as int, id@),
{
    let ghost list = resolved_views(resources@);
    let mut i: usize = 0;
    while i < resources.len() && resources[i].resource_id().is_before(id)
        invariant
            i <= resources@.len(),
            list == resolved_views(resources@),
            sorted(list),
            forall|k: int| 0 <= k < i ==> precedes((#[trigger] list[k]).resource_id(), id@),
        decreases resources.len() - i,
    {
        assert(list[i as int] == resources@[i as int]@);
        i += 1;
    }
    if i < resources.len() {
        assert(list[i as int] == resources@[i as int]@);
        if resources[i].resource_id().same(id) {
            return (i, true);
        }
        proof {
            lemma_precedes_total(list[i as int].resource_id(), id@);
            assert forall|k: int| i <= k < list.len() implies precedes(
                id@,
                (#[trigger] list[k]).resource_id(),
            ) by {
                if k > i {
                    assert(precedes(list[i as int].resource_id(), list[k].resource_id()));
                    lemma_precedes_transitive(
                        id@,
                        list[i as int].resource_id(),
                        list[k].resource_id(),
                    );
                }
            }
        }
    }
    (i, false)
}

impl ResolvedDesired {
    #[verifier::type_invariant]
    spec fn ordered(self) -> bool {
        &&& sorted(resolved_views(self.variants@))
        &&& targets_differ(by_id(resolved_views(self.variants@)))
        &&& link_views(self.resources@) == links_of(resolved_views(self.variants@))
    }

    /// The profile whose composition the set comes from.
    pub closed spec fn profile(self) -> Seq<char> {
        self.root_profile@
    }

    /// Builds a set in the order of resources, with unique resources and targets.
    pub fn new(root_profile: ProfileId, resources: Vec<ResolvedResource>) -> (outcome: Result<
        Self,
        ResolvedDesiredError,
    >)
        ensures
            desires(resolved_views(resources@), outcome),
            outcome matches Ok(desired) ==> desired.profile() == root_profile@,
    {
        let ghost list = resolved_views(resources@);
        let mut held: Vec<ResolvedResource> = Vec::new();
        let mut i: usize = 0;
        proof {
            assert(by_id(resolved_views(held@)) =~= by_id(list.take(0)));
        }
        while i < resources.len()
            invariant
                i <= resources@.len(),
                list == resolved_views(resources@),
                distinct_until(list, i as int),
                sorted(resolved_views(held@)),
                by_id(resolved_views(held@)) == by_id(list.take(i as int)),
            decreases resources.len() - i,
        {
            let resource = &resources[i];
            let ghost effect = list[i as int];
            let ghost front = list.take(i as int);
            let ghost listed = resolved_views(held@);
            proof {
                lemma_distinct_take(list, i as int);
                lemma_by_id(front);
            }
            let (place, present) = find_place(&held, resource.resource_id());
            if present {
                proof {
                    lemma_sorted_at(listed, place as int);
                    let j = choose|j: int|
                        0 <= j < front.len() && (#[trigger] front[j]).resource_id()
                            == effect.resource_id();
                    assert(list[j].resource_id() == effect.resource_id());
                    assert(repeats_id(list, i as int));
                }
                return Err(
                    ResolvedDesiredError::DuplicateResourceId {
                        resource_id: resource.resource_id().clone(),
                    },
                );
            }
            proof {
                lemma_absent(listed, place as int, effect.resource_id());
                if id_taken(list, i as int) {
                    let j = choose|j: int|
                        0 <= j < i && (#[trigger] list[j]).resource_id() == effect.resource_id();
                    assert(front[j].resource_id() == effect.resource_id());
                }
            }
            let mut k: usize = 0;
            while k < held.len()
                invariant
                    k <= held@.len(),
                    i < resources@.len(),
                    list == resolved_views(resources@),
                    *resource == resources@[i as int],
                    effect == list[i as int],
                    front == list.take(i as int),
                    listed == resolved_views(held@),
                    sorted(listed),
                    by_id(listed) == by_id(front),
                    distinct(front),
                    keyed(by_id(front)),
                    distinct_until(list, i as int),
                    !id_taken(list, i as int),
                    forall|m: int|
                        0 <= m < k ==> (#[trigger] listed[m]).target_key() != effect.target_key(),
                decreases held.len() - k,
            {
                if held[k].target_path().same(resource.target_path()) {
                    proof {
                        lemma_sorted_at(listed, k as int);
                        assert(listed[k as int] == held@[k as int]@);
                        let id = listed[k as int].resource_id();
                        assert(by_id(front).contains_key(id));
                        let j = choose|j: int|
                            0 <= j < front.len() && (#[trigger] front[j]).resource_id() == id;
                        lemma_by_id(front);
                        assert(by_id(front)[front[j].resource_id()] == front[j]);
                        assert(list[j] == front[j]);
                        assert(repeats_target(list, i as int, j));
                    }
                    return Err(
                        ResolvedDesiredError::DuplicateTarget {
                            target_path: resource.target_path().clone(),
                            first_resource_id: held[k].resource_id().clone(),
                            duplicate_resource_id: resource.resource_id().clone(),
                        },
                    );
                }
                k += 1;
            }
            proof {
                if target_taken(list, i as int) {
                    let j = choose|j: int|
                        0 <= j < i && (#[trigger] list[j]).target_key() == effect.target_key();
                    assert(front[j] == list[j]);
                    assert(by_id(front).contains_key(front[j].resource_id()));
                    let m = choose|m: int|
                        0 <= m < listed.len() && (#[trigger] listed[m]).resource_id()
                            == front[j].resource_id();
                    lemma_sorted_at(listed, m);
                    assert(listed[m] == front[j]);
                }
                assert(distinct_until(list, i + 1));
                lemma_insert(listed, place as int, effect);
                lemma_by_id_take(list, i as int);
            }
            held.insert(place, resource.clone());
            assert(resolved_views(held@) =~= listed.insert(place as int, effect));
            i += 1;
        }
        proof {
            assert(list.take(i as int) =~= list);
            lemma_by_id(list);
        }
        let links = file_links(&held);
        Ok(ResolvedDesired { root_profile, resources: links, variants: held })
    }

    /// The profile whose composition produced this set.
    pub fn root_profile(&self) -> (profile: &ProfileId)
        ensures
            profile@ == self.profile(),
    {
        &self.root_profile
    }

    /// The wanted links in the order of their resources.
    pub fn resources(&self) -> (resources: &Vec<ResolvedFileLink>)
        ensures
            link_views(resources@) == links_of(self@),
    {
        proof {
            use_type_invariant(self);
        }
        &self.resources
    }

    /// Every wanted effect in the order of the resources.
    pub fn variants(&self) -> (variants: &Vec<ResolvedResource>)
        ensures
            resolved_views(variants@) == self@,
            sorted(self@),
            distinct(self@),
    {
        proof {
            use_type_invariant(self);
            lemma_sorted_distinct(resolved_views(self.variants@));
        }
        &self.variants
    }

    /// The wanted link of a resource.
    pub fn get(&self, resource_id: &FullyQualifiedResourceId) -> (found: Option<&ResolvedFileLink>)
        ensures
            match found {
                Some(link) => links_of(self@).contains(link@) && link@.resource_id == resource_id@,
                None => forall|i: int|
                    0 <= i < links_of(self@).len() ==> (#[trigger] links_of(
                        self@,
                    )[i]).resource_id != resource_id@,
            },
    {
        proof {
            use_type_invariant(self);
        }
        let mut i: usize = 0;
        while i < self.resources.len()
            invariant
                i <= self.resources@.len(),
                link_views(self.resources@) == links_of(self@),
                forall|k: int| 0 <= k < i ==> self.resources@[k]@.resource_id != resource_id@,
            decreases self.resources.len() - i,
        {
            if self.resources[i].resource_id().same(resource_id) {
                assert(link_views(self.resources@)[i as int] == self.resources@[i as int]@);
                return Some(&self.resources[i]);
            }
            i += 1;
        }
        proof {
            assert(link_views(self.resources@).len() == self.resources@.len());
            assert forall|k: int| 0 <= k < links_of(self@).len() implies (#[trigger] links_of(
                self@,
            )[k]).resource_id != resource_id@ by {
                assert(link_views(self.resources@)[k] == self.resources@[k]@);
            }
        }
        None
    }
}

/// The links among resources, in order.
fn file_links(variants: &Vec<ResolvedResource>) -> (links: Vec<ResolvedFileLink>)
    ensures
        link_views(links@) == links_of(resolved_views(variants@)),
{
    let mut links: Vec<ResolvedFileLink> = Vec::new();
    let ghost list = resolved_views(variants@);
    let mut i: usize = 0;
    proof {
        assert(list.take(0) =~= Seq::<EffectView>::empty());
        assert(link_views(links@) =~= links_of(list.take(0)));
    }
    while i < variants.len()
        invariant
            i <= variants@.len(),
            list == resolved_views(variants@),
            link_views(links@) == links_of(list.take(i as int)),
            links@.len() == links_of(list.take(i as int)).len(),
        decreases variants.len() - i,
    {
        proof {
            assert(list.take(i + 1).drop_last() =~= list.take(i as int));
            assert(list.take(i + 1).last() == variants@[i as int]@);
        }
        match &variants[i] {
            ResolvedResource::FileLink(link) => {
                links.push(link.clone());
                assert(link_views(links@) =~= links_of(list.take(i as int)).push(link@));
            },
            ResolvedResource::FileCopy(_) => {},
        }
        i += 1;
    }
    assert(list.take(i as int) =~= list);
    links
}

impl ResolvedDesiredError {
    /// What the error says.
    pub open spec fn message(self) -> Seq<char> {
        match self {
            ResolvedDesiredError::DuplicateResourceId { resource_id } =>
                "duplicate desired resource ID: "@ + resource_id@,
            ResolvedDesiredError::DuplicateTarget {
                target_path,
                first_resource_id,
                duplicate_resource_id,
            } => "desired target "@ + target_path@ + " is claimed by both "@ + first_resource_id@
                + " and "@ + duplicate_resource_id@,
        }
    }

    /// What the error says.
    pub fn to_text(&self) -> (text: String)
        ensures
            text@ == self.message(),
    {
        match self {
            ResolvedDesiredError::DuplicateResourceId { resource_id } => copy_of(
                "duplicate desired resource ID: ",
            ).concat(resource_id.as_str()),
            ResolvedDesiredError::DuplicateTarget {
                target_path,
                first_resource_id,
                duplicate_resource_id,
            } => copy_of("desired target ").concat(target_path.as_path()).concat(
                " is claimed by both ",
            ).concat(first_resource_id.as_str()).concat(" and ").concat(
                duplicate_resource_id.as_str(),
            ),
        }
    }
}

/// Whether an effect is that of a listed resource.
pub open spec fn is_among(effect: EffectView, resources: Seq<ResolvedResource>) -> bool {
    exists|i: int| 0 <= i < resources.len() && (#[trigger] resources[i])@ == effect
}

/// What a root profile wants is canonical exactly if no two resources are one and no two stand at one
/// target. It is then the same resources, in the order of their identities.
pub proof fn desire_is_canonical_exactly_of_separate_resources(
    root_profile: ProfileId,
    resources: Vec<ResolvedResource>,
    outcome: Result<ResolvedDesired, ResolvedDesiredError>,
)
    requires
        call_ensures(ResolvedDesired::new, (root_profile, resources), outcome),
    ensures
        outcome is Ok <==> forall|i: int, j: int|
            0 <= i < j < resources@.len() ==> (#[trigger] resources@[i])@.resource_id() != (
            #[trigger] resources@[j])@.resource_id() && !same_path(
                resources@[i]@.target_path(),
                resources@[j]@.target_path(),
            ),
        (outcome matches Ok(desired) ==> desired.profile() == root_profile@),
        (outcome matches Ok(desired) ==> forall|i: int, j: int|
            0 <= i < j < desired@.len() ==> precedes(
                (#[trigger] desired@[i]).resource_id(),
                (#[trigger] desired@[j]).resource_id(),
            )),
        (outcome matches Ok(desired) ==> forall|i: int|
            0 <= i < resources@.len() ==> desired@.contains((#[trigger] resources@[i])@)),
        (outcome matches Ok(desired) ==> forall|k: int|
            0 <= k < desired@.len() ==> is_among(#[trigger] desired@[k], resources@)),
{
    let list = resolved_views(resources@);
    assert(list.len() == resources@.len());
    match outcome {
        Ok(desired) => {
            assert forall|i: int, j: int| 0 <= i < j < resources@.len() implies (
            #[trigger] resources@[i])@.resource_id() != (#[trigger] resources@[j])@.resource_id()
                && !same_path(
                resources@[i]@.target_path(),
                resources@[j]@.target_path(),
            ) by {
                assert(list[i] == resources@[i]@ && list[j] == resources@[j]@);
                if list[i].resource_id() == list[j].resource_id() || list[i].target_key()
                    == list[j].target_key() {
                    lemma_distinct(list, i, j);
                }
            }
            lemma_by_id(list);
            assert forall|i: int| 0 <= i < resources@.len() implies desired@.contains(
                (#[trigger] resources@[i])@,
            ) by {
                let effect = list[i];
                assert(by_id(list).contains_key(effect.resource_id()));
                assert(by_id(desired@).contains_key(effect.resource_id()));
                let k = choose|k: int|
                    0 <= k < desired@.len() && (#[trigger] desired@[k]).resource_id()
                        == effect.resource_id();
                lemma_sorted_by_id(desired@, k);
                assert(desired@[k] == effect);
            }
            assert forall|k: int| 0 <= k < desired@.len() implies is_among(
                #[trigger] desired@[k],
                resources@,
            ) by {
                lemma_sorted_by_id(desired@, k);
                let id = desired@[k].resource_id();
                assert(by_id(list).contains_key(id));
                let i = choose|i: int|
                    0 <= i < list.len() && (#[trigger] list[i]).resource_id() == id;
                assert(list[i] == resources@[i]@);
            }
        },
        Err(ResolvedDesiredError::DuplicateResourceId { .. }) => {
            let i = choose|i: int| #[trigger] repeats_id(list, i);
            let j = choose|j: int|
                0 <= j < i && (#[trigger] list[j]).resource_id() == list[i].resource_id();
            assert(resources@[j]@.resource_id() == resources@[i]@.resource_id());
        },
        Err(_) => {
            let (i, j) = choose|i: int, j: int| #[trigger] repeats_target(list, i, j);
            assert(same_path(resources@[j]@.target_path(), resources@[i]@.target_path()));
        },
    }
}

proof fn lemma_sorted_by_id(list: Seq<EffectView>, k: int)
    requires
        sorted(list),
        0 <= k < list.len(),
    ensures
        by_id(list).contains_key(list[k].resource_id()),
        by_id(list)[list[k].resource_id()] == list[k],
{
    let id = list[k].resource_id();
    let i = choose|i: int| 0 <= i < list.len() && (#[trigger] list[i]).resource_id() == id;
    if i < k {
        assert(precedes(list[i].resource_id(), list[k].resource_id()));
        lemma_precedes_irreflexive(id);
    } else if k < i {
        assert(precedes(list[k].resource_id(), list[i].resource_id()));
        lemma_precedes_irreflexive(id);
    }
}

/// Why a desire is refused names the resources, each reason in its own words.
pub proof fn refused_desire_says_why(error: ResolvedDesiredError, text: String)
    requires
        call_ensures(ResolvedDesiredError::to_text, (&error,), text),
    ensures
        match error {
            ResolvedDesiredError::DuplicateResourceId { resource_id } => text@
                == "duplicate desired resource ID: "@ + resource_id@,
            ResolvedDesiredError::DuplicateTarget {
                target_path,
                first_resource_id,
                duplicate_resource_id,
            } => opens(text@, "desired target "@ + target_path@) && closes(
                text@,
                " "@ + first_resource_id@ + " and "@ + duplicate_resource_id@,
            ),
        },
{
    reveal_strlit(" is claimed by both ");
    reveal_strlit(" ");
}

} // verus!
