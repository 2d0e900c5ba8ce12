//! Which executor call an action needs: exactly one for each.

use vstd::prelude::*;
use crate::application::errors::{
    ApplyError, CopyError, CreateLinkExecutionError, RelocateLinkExecutionError,
    ReplaceLinkExecutionError, ResourceExecutionError, StaleLinkExecutionError,
};
use crate::domain::desired::{ResolvedDesired, ResolvedResource};
use crate::domain::effects::EffectView;
use crate::domain::ids::FullyQualifiedResourceId;
use crate::domain::known::KnownResource;
use crate::domain::paths::{same_path, ResolvedPath};
use crate::domain::plan::{
    condition_views, conditions_agree, same_condition, ActionKind, ActionView, PlannedAction,
    PlannedResourceAction, TargetCondition,
};
use crate::domain::targets::{
    agreeing_conditions_leave_the_targets, all_met, changed_effect_has_to_stand, cleared, performed,
    placed, postconditions_hold_after_the_action, well_aimed, StandingView,
};

verus! {

/// A source that was seen to be a readable regular file, and the resource that wants it.
#[derive(Debug, PartialEq, Eq)]
pub struct VerifiedSource {
    pub resource_id: FullyQualifiedResourceId,
    pub source_path: ResolvedPath,
}

/// A verified source, as texts.
pub struct SourceView {
    pub resource_id: Seq<char>,
    pub source_path: Seq<char>,
}

impl View for VerifiedSource {
    type V = SourceView;

    open spec fn view(&self) -> SourceView {
        SourceView { resource_id: self.resource_id@, source_path: self.source_path@ }
    }
}

impl Clone for VerifiedSource {
    fn clone(&self) -> (copy: Self)
        ensures
            copy@ == self@,
    {
        VerifiedSource {
            resource_id: self.resource_id.clone(),
            source_path: self.source_path.clone(),
        }
    }
}

/// The desired resources of a request, with the sources that were verified for them.
#[derive(Debug)]
pub struct ResolvedApplyInput {
    pub desired: ResolvedDesired,
    pub verified_sources: Vec<VerifiedSource>,
}

/// The texts of a list of sources, in order.
pub open spec fn source_views(list: Seq<VerifiedSource>) -> Seq<SourceView> {
    Seq::new(list.len(), |i: int| list[i]@)
}

/// The source that was verified for a resource.
pub open spec fn source_of(sources: Seq<SourceView>, resource_id: Seq<char>) -> Option<SourceView>
    decreases sources.len(),
{
    if sources.len() == 0 {
        None
    } else if sources[0].resource_id == resource_id {
        Some(sources[0])
    } else {
        source_of(sources.drop_first(), resource_id)
    }
}

/// The source inside an optional source.
pub open spec fn source_view(source: Option<VerifiedSource>) -> Option<SourceView> {
    match source {
        Some(source) => Some(source@),
        None => None,
    }
}

fn find_source<'a>(sources: &'a Vec<VerifiedSource>, resource_id: &FullyQualifiedResourceId) -> (found:
    Option<&'a VerifiedSource>)
    ensures
        match found {
            Some(source) => source_of(source_views(sources@), resource_id@) == Some(source@),
            None => source_of(source_views(sources@), resource_id@) is None,
        },
{
    let ghost views = source_views(sources@);
    let mut i: usize = 0;
    proof {
        assert(views.skip(0) =~= views);
    }
    while i < sources.len()
        invariant
            i <= sources@.len(),
            views == source_views(sources@),
            source_of(views, resource_id@) == source_of(views.skip(i as int), resource_id@),
        decreases sources.len() - i,
    {
        proof {
            assert(views.skip(i as int)[0] == sources@[i as int]@);
            assert(views.skip(i as int).drop_first() =~= views.skip(i + 1));
        }
        if sources[i].resource_id.same(resource_id) {
            return Some(&sources[i]);
        }
        i += 1;
    }
    None
}

/// The source that was verified for a resource.
pub fn source<'a>(resolved: &'a ResolvedApplyInput, resource_id: &FullyQualifiedResourceId) -> (found:
    Result<&'a VerifiedSource, ApplyError>)
    ensures
        match found {
            Ok(source) => source_of(source_views(resolved.verified_sources@), resource_id@) == Some(
                source@,
            ),
            Err(error) => {
                &&& source_of(source_views(resolved.verified_sources@), resource_id@) is None
                &&& error matches ApplyError::MissingVerifiedSource { resource_id: id } && id@
                    == resource_id@
            },
        },
{
    match find_source(&resolved.verified_sources, resource_id) {
        Some(source) => Ok(source),
        None => Err(ApplyError::MissingVerifiedSource { resource_id: resource_id.clone() }),
    }
}

/// A check that an executor makes before anything is written.
#[derive(Clone, Copy, Debug, PartialEq, Eq, Structural)]
pub enum PreflightName {
    Create,
    Replace,
    SameSourceHandoff,
    Relocate,
    Remove,
    ForgetMissing,
    Noop,
    Copy,
}

/// One check to make, with the source that it is to be made for.
#[derive(Debug, PartialEq, Eq)]
pub struct PreflightCall {
    pub name: PreflightName,
    pub source: Option<VerifiedSource>,
}

/// What an executor found before anything is written.
#[derive(Debug, PartialEq, Eq)]
pub enum PreflightFailure {
    Create(CreateLinkExecutionError),
    Replace(ReplaceLinkExecutionError),
    Relocate(RelocateLinkExecutionError),
    Stale(StaleLinkExecutionError),
    Copy(CopyError),
}

/// The check that an action needs: everything but a link action is checked by the executor of
/// copies, and a handoff that changes no link is told from one that does.
pub open spec fn preflight_name(action: ActionView) -> PreflightName {
    if !action.is_link() {
        PreflightName::Copy
    } else {
        match action {
            ActionView::Create { .. } => PreflightName::Create,
            ActionView::Replace { .. } => PreflightName::Replace,
            ActionView::ReplaceOwnership { .. } => if conditions_agree(
                action.preconditions(),
                action.postconditions(),
            ) {
                PreflightName::SameSourceHandoff
            } else {
                PreflightName::Replace
            },
            ActionView::Relocate { .. } => PreflightName::Relocate,
            ActionView::Remove { .. } => PreflightName::Remove,
            ActionView::ForgetMissing { .. } => PreflightName::ForgetMissing,
            ActionView::Noop { .. } => PreflightName::Noop,
            ActionView::ReplaceEffect { .. } => PreflightName::Copy,
        }
    }
}

/// Whether a check cannot be made without a verified source.
pub open spec fn check_needs_source(name: PreflightName) -> bool {
    !(name is Remove) && !(name is ForgetMissing) && !(name is Copy)
}

/// Whether a check is never given a source.
pub open spec fn check_is_sourceless(name: PreflightName) -> bool {
    name is Remove || name is ForgetMissing
}

/// Whether a call is the check that an action needs, among the verified sources.
pub open spec fn is_check_for(
    call: PreflightCall,
    action: ActionView,
    sources: Seq<SourceView>,
) -> bool {
    &&& call.name == preflight_name(action)
    &&& source_view(call.source) == if check_is_sourceless(call.name) {
        None
    } else {
        source_of(sources, action.resource_id())
    }
}

/// Whether an action lacks the source that its check needs.
pub open spec fn lacks_source(action: ActionView, sources: Seq<SourceView>) -> bool {
    check_needs_source(preflight_name(action)) && source_of(sources, action.resource_id()) is None
}

fn same_conditions(left: &Vec<TargetCondition>, right: &Vec<TargetCondition>) -> (equal: bool)
    ensures
        equal == conditions_agree(condition_views(left@), condition_views(right@)),
{
    if left.len() != right.len() {
        assert(condition_views(left@).len() != condition_views(right@).len());
        return false;
    }
    let mut i: usize = 0;
    while i < left.len()
        invariant
            i <= left@.len(),
            left@.len() == right@.len(),
            forall|k: int| 0 <= k < i ==> same_condition((#[trigger] left@[k])@, right@[k]@),
        decreases left.len() - i,
    {
        if !left[i].same(&right[i]) {
            assert(!same_condition(
                condition_views(left@)[i as int],
                condition_views(right@)[i as int],
            ));
            return false;
        }
        i += 1;
    }
    assert forall|k: int| 0 <= k < left@.len() implies same_condition(
        #[trigger] condition_views(left@)[k],
        condition_views(right@)[k],
    ) by {
        assert(same_condition(left@[k]@, right@[k]@));
    }
    true
}

fn link_preflight_name(action: &PlannedAction) -> (name: PreflightName)
    ensures
        name == preflight_name(action@),
        !(name is Copy),
{
    match action.kind() {
        ActionKind::CreateLink => PreflightName::Create,
        ActionKind::ReplaceLink => PreflightName::Replace,
        ActionKind::ReplaceOwnership => if same_conditions(
            &action.preconditions(),
            &action.postconditions(),
        ) {
            PreflightName::SameSourceHandoff
        } else {
            PreflightName::Replace
        },
        ActionKind::RelocateLink => PreflightName::Relocate,
        ActionKind::RemoveLink => PreflightName::Remove,
        ActionKind::ForgetMissing => PreflightName::ForgetMissing,
        _ => PreflightName::Noop,
    }
}

/// The check to make for an action, or the reason why it cannot be made.
pub fn preflight(resource_action: &PlannedResourceAction, resolved: &ResolvedApplyInput) -> (outcome:
    Result<PreflightCall, ApplyError>)
    ensures
        match outcome {
            Ok(call) => {
                &&& is_check_for(
                    call,
                    resource_action@,
                    source_views(resolved.verified_sources@),
                )
                &&& !lacks_source(resource_action@, source_views(resolved.verified_sources@))
            },
            Err(error) => {
                &&& lacks_source(resource_action@, source_views(resolved.verified_sources@))
                &&& error matches ApplyError::MissingVerifiedSource { resource_id } && resource_id@
                    == resource_action@.resource_id()
            },
        },
{
    let action = match resource_action {
        PlannedResourceAction::FileLink(action) => action,
        PlannedResourceAction::FileCopy(copy) => {
            let source = match find_source(&resolved.verified_sources, copy.resource_id()) {
                Some(source) => Some(source.clone()),
                None => None,
            };
            return Ok(PreflightCall { name: PreflightName::Copy, source });
        },
        PlannedResourceAction::ReplaceEffect(handoff) => {
            let source = match find_source(&resolved.verified_sources, handoff.resource_id()) {
                Some(source) => Some(source.clone()),
                None => None,
            };
            return Ok(PreflightCall { name: PreflightName::Copy, source });
        },
    };
    let name = link_preflight_name(action);
    match name {
        PreflightName::Remove => return Ok(PreflightCall { name, source: None }),
        PreflightName::ForgetMissing => return Ok(PreflightCall { name, source: None }),
        _ => {},
    }
    match source(resolved, action.resource_id()) {
        Ok(source) => Ok(PreflightCall { name, source: Some(source.clone()) }),
        Err(error) => Err(error),
    }
}

/// What a failed check means for the apply.
pub open spec fn failed_check(failure: PreflightFailure) -> ApplyError {
    match failure {
        PreflightFailure::Create(error) => ApplyError::Preflight(error),
        PreflightFailure::Replace(error) => ApplyError::ReplacePreflight(error),
        PreflightFailure::Relocate(error) => ApplyError::RelocatePreflight(error),
        PreflightFailure::Stale(error) => ApplyError::StalePreflight(error),
        PreflightFailure::Copy(error) => ApplyError::CopyPreflight(error),
    }
}

/// What a failed check means for the apply.
pub fn preflight_error(failure: PreflightFailure) -> (error: ApplyError)
    ensures
        error == failed_check(failure),
{
    match failure {
        PreflightFailure::Create(error) => ApplyError::Preflight(error),
        PreflightFailure::Replace(error) => ApplyError::ReplacePreflight(error),
        PreflightFailure::Relocate(error) => ApplyError::RelocatePreflight(error),
        PreflightFailure::Stale(error) => ApplyError::StalePreflight(error),
        PreflightFailure::Copy(error) => ApplyError::CopyPreflight(error),
    }
}

/// An executor call that may change a target.
#[derive(Clone, Copy, Debug, PartialEq, Eq, Structural)]
pub enum ExecuteName {
    CreateLink,
    ReplaceLink,
    SameSourceHandoff,
    RelocateLink,
    RemoveLink,
    ForgetMissingLink,
    CreateCopy,
    ReplaceCopy,
    RelocateCopy,
    RemoveCopy,
    ForgetMissingCopy,
    LinkToCopyHandoff,
    CopyToLinkHandoff,
}

/// One call to make, with the source that it is to be made for.
#[derive(Debug, PartialEq, Eq)]
pub struct ExecuteCall {
    pub name: ExecuteName,
    pub source: Option<VerifiedSource>,
}

/// The call that an action needs. Nothing is executed for an action that only reports, nor for a
/// handoff that does not lead from a link to a copy or back.
pub open spec fn execute_name(action: ActionView) -> Option<ExecuteName> {
    match action {
        ActionView::Create { desired } => Some(
            if desired is Link {
                ExecuteName::CreateLink
            } else {
                ExecuteName::CreateCopy
            },
        ),
        ActionView::Replace { desired, .. } => Some(
            if desired is Link {
                ExecuteName::ReplaceLink
            } else {
                ExecuteName::ReplaceCopy
            },
        ),
        ActionView::ReplaceOwnership { .. } => Some(
            if conditions_agree(action.preconditions(), action.postconditions()) {
                ExecuteName::SameSourceHandoff
            } else {
                ExecuteName::ReplaceLink
            },
        ),
        ActionView::Relocate { desired, .. } => Some(
            if desired is Link {
                ExecuteName::RelocateLink
            } else {
                ExecuteName::RelocateCopy
            },
        ),
        ActionView::Remove { previous } => Some(
            if previous is Link {
                ExecuteName::RemoveLink
            } else {
                ExecuteName::RemoveCopy
            },
        ),
        ActionView::ForgetMissing { previous } => Some(
            if previous is Link {
                ExecuteName::ForgetMissingLink
            } else {
                ExecuteName::ForgetMissingCopy
            },
        ),
        ActionView::Noop { .. } => None,
        ActionView::ReplaceEffect { desired, previous } => if previous is Link && desired is Copy {
            Some(ExecuteName::LinkToCopyHandoff)
        } else if previous is Copy && desired is Link {
            Some(ExecuteName::CopyToLinkHandoff)
        } else {
            None
        },
    }
}

/// Whether a call needs no verified source.
pub open spec fn call_is_sourceless(name: ExecuteName) -> bool {
    name is RemoveLink || name is ForgetMissingLink || name is RemoveCopy
        || name is ForgetMissingCopy
}

/// Whether a call is the one that an action needs, among the verified sources.
pub open spec fn is_call_for(call: ExecuteCall, action: ActionView, sources: Seq<SourceView>) -> bool {
    &&& execute_name(action) == Some(call.name)
    &&& source_view(call.source) == if call_is_sourceless(call.name) {
        None
    } else {
        source_of(sources, action.resource_id())
    }
}

/// Whether an action can be handed to an executor, among the verified sources.
pub open spec fn can_execute(action: ActionView, sources: Seq<SourceView>) -> bool {
    match execute_name(action) {
        Some(name) => call_is_sourceless(name) || source_of(sources, action.resource_id()) is Some,
        None => false,
    }
}

fn to_execute_name(resource_action: &PlannedResourceAction) -> (name: Option<ExecuteName>)
    ensures
        name == execute_name(resource_action@),
{
    match resource_action {
        PlannedResourceAction::FileLink(action) => match action.kind() {
            ActionKind::CreateLink => Some(ExecuteName::CreateLink),
            ActionKind::ReplaceLink => Some(ExecuteName::ReplaceLink),
            ActionKind::ReplaceOwnership => if same_conditions(
                &action.preconditions(),
                &action.postconditions(),
            ) {
                Some(ExecuteName::SameSourceHandoff)
            } else {
                Some(ExecuteName::ReplaceLink)
            },
            ActionKind::RelocateLink => Some(ExecuteName::RelocateLink),
            ActionKind::RemoveLink => Some(ExecuteName::RemoveLink),
            ActionKind::ForgetMissing => Some(ExecuteName::ForgetMissingLink),
            _ => None,
        },
        PlannedResourceAction::FileCopy(action) => match action.kind() {
            ActionKind::CreateCopy => Some(ExecuteName::CreateCopy),
            ActionKind::ReplaceCopy => Some(ExecuteName::ReplaceCopy),
            ActionKind::RelocateCopy => Some(ExecuteName::RelocateCopy),
            ActionKind::RemoveCopy => Some(ExecuteName::RemoveCopy),
            ActionKind::ForgetMissing => Some(ExecuteName::ForgetMissingCopy),
            _ => None,
        },
        PlannedResourceAction::ReplaceEffect(action) => match (
            action.old_effect(),
            action.final_effect(),
        ) {
            (KnownResource::FileLink(_), ResolvedResource::FileCopy(_)) => Some(
                ExecuteName::LinkToCopyHandoff,
            ),
            (KnownResource::FileCopy(_), ResolvedResource::FileLink(_)) => Some(
                ExecuteName::CopyToLinkHandoff,
            ),
            _ => None,
        },
    }
}

/// The call to make for an action, or the reason why it cannot be made.
///
/// An action that only reports is never handed to an executor.
pub fn execute(resource_action: &PlannedResourceAction, resolved: &ResolvedApplyInput) -> (outcome:
    Result<ExecuteCall, ResourceExecutionError>)
    requires
        resource_action@ !is Noop,
    ensures
        match outcome {
            Ok(call) => {
                &&& is_call_for(
                    call,
                    resource_action@,
                    source_views(resolved.verified_sources@),
                )
                &&& can_execute(resource_action@, source_views(resolved.verified_sources@))
            },
            Err(error) => {
                &&& !can_execute(resource_action@, source_views(resolved.verified_sources@))
                &&& error is InvalidEffectHandoff
            },
        },
{
    let name = match to_execute_name(resource_action) {
        Some(name) => name,
        None => return Err(ResourceExecutionError::InvalidEffectHandoff),
    };
    match name {
        ExecuteName::RemoveLink | ExecuteName::ForgetMissingLink | ExecuteName::RemoveCopy
        | ExecuteName::ForgetMissingCopy => return Ok(ExecuteCall { name, source: None }),
        _ => {},
    }
    match source(resolved, resource_action.resource_id()) {
        Ok(source) => Ok(ExecuteCall { name, source: Some(source.clone()) }),
        Err(_) => Err(ResourceExecutionError::InvalidEffectHandoff),
    }
}

/// A link action whose check was made with its source is never refused for want of one.
pub proof fn checked_link_action_can_be_executed(action: ActionView, sources: Seq<SourceView>)
    requires
        action.is_link(),
        action !is Noop,
        !lacks_source(action, sources),
    ensures
        can_execute(action, sources),
{
}

/// Whether some source was verified for a resource.
pub open spec fn is_verified(sources: Seq<SourceView>, resource_id: Seq<char>) -> bool {
    exists|i: int| 0 <= i < sources.len() && (#[trigger] sources[i]).resource_id == resource_id
}

/// The source of a resource is the first one that was verified for it, and there is none exactly
/// if none was verified for it.
pub proof fn source_is_the_first_verified_one(sources: Seq<SourceView>, resource_id: Seq<char>)
    ensures
        source_of(sources, resource_id) is Some <==> is_verified(sources, resource_id),
        (source_of(sources, resource_id) matches Some(source) ==> exists|i: int|
            0 <= i < sources.len() && #[trigger] sources[i] == source && source.resource_id
                == resource_id && forall|k: int|
                0 <= k < i ==> (#[trigger] sources[k]).resource_id != resource_id),
    decreases sources.len(),
{
    if sources.len() > 0 {
        if sources[0].resource_id == resource_id {
            assert(sources[0] == source_of(sources, resource_id)->0);
        } else {
            let rest = sources.drop_first();
            source_is_the_first_verified_one(rest, resource_id);
            if is_verified(rest, resource_id) {
                let i = choose|i: int|
                    0 <= i < rest.len() && (#[trigger] rest[i]).resource_id == resource_id;
                assert(sources[i + 1].resource_id == resource_id);
            }
            if is_verified(sources, resource_id) {
                let i = choose|i: int|
                    0 <= i < sources.len() && (#[trigger] sources[i]).resource_id == resource_id;
                assert(rest[i - 1].resource_id == resource_id);
            }
            if source_of(sources, resource_id) is Some {
                let source = source_of(sources, resource_id)->0;
                let i = choose|i: int|
                    0 <= i < rest.len() && #[trigger] rest[i] == source && source.resource_id
                        == resource_id && forall|k: int|
                        0 <= k < i ==> (#[trigger] rest[k]).resource_id != resource_id;
                assert(sources[i + 1] == source);
                assert forall|k: int| 0 <= k < i + 1 implies (#[trigger] sources[k]).resource_id
                    != resource_id by {
                    if k > 0 {
                        assert(rest[k - 1].resource_id != resource_id);
                    }
                }
            }
        }
    }
}

/// The call for an action is decided one to one by what the action does and what it does it to.
pub proof fn call_is_decided_by_the_action(action: ActionView)
    ensures
        execute_name(action) == Some(ExecuteName::CreateLink) <==> action is Create
            && action.desired()->0 is Link,
        execute_name(action) == Some(ExecuteName::CreateCopy) <==> action is Create
            && action.desired()->0 is Copy,
        execute_name(action) == Some(ExecuteName::RelocateLink) <==> action is Relocate
            && action.desired()->0 is Link,
        execute_name(action) == Some(ExecuteName::RelocateCopy) <==> action is Relocate
            && action.desired()->0 is Copy,
        execute_name(action) == Some(ExecuteName::ReplaceCopy) <==> action is Replace
            && action.desired()->0 is Copy,
        execute_name(action) == Some(ExecuteName::RemoveLink) <==> action is Remove
            && action.previous()->0 is Link,
        execute_name(action) == Some(ExecuteName::RemoveCopy) <==> action is Remove
            && action.previous()->0 is Copy,
        execute_name(action) == Some(ExecuteName::ForgetMissingLink) <==> action is ForgetMissing
            && action.previous()->0 is Link,
        execute_name(action) == Some(ExecuteName::ForgetMissingCopy) <==> action is ForgetMissing
            && action.previous()->0 is Copy,
        execute_name(action) == Some(ExecuteName::LinkToCopyHandoff) <==> action is ReplaceEffect
            && action.previous()->0 is Link && action.desired()->0 is Copy,
        execute_name(action) == Some(ExecuteName::CopyToLinkHandoff) <==> action is ReplaceEffect
            && action.previous()->0 is Copy && action.desired()->0 is Link,
        execute_name(action) is None <==> action is Noop || action is ReplaceEffect && (
        action.previous()->0 is Link <==> action.desired()->0 is Link),
        action is Replace && action.desired()->0 is Link ==> execute_name(action) == Some(
            ExecuteName::ReplaceLink,
        ),
        action is Replace && action.desired()->0 is Copy ==> execute_name(action) == Some(
            ExecuteName::ReplaceCopy,
        ),
{
}

/// Ownership of a link passes without touching it exactly if the link already stands at the wanted
/// target and holds the wanted path. Otherwise the link is replaced.
pub proof fn handoff_of_an_unchanged_link_touches_nothing(action: ActionView)
    requires
        action is ReplaceOwnership,
        action.is_link(),
    ensures
        ({
            let unchanged = match (action.desired()->0, action.previous()->0) {
                (EffectView::Link(desired), EffectView::Link(previous)) => same_path(
                    desired.target_path,
                    previous.target_path,
                ) && same_path(desired.link_target, previous.link_target),
                _ => false,
            };
            &&& execute_name(action) == Some(ExecuteName::SameSourceHandoff) <==> unchanged
            &&& execute_name(action) == Some(ExecuteName::ReplaceLink) <==> !unchanged
            &&& preflight_name(action) == PreflightName::SameSourceHandoff <==> unchanged
            &&& preflight_name(action) == PreflightName::Replace <==> !unchanged
        }),
{
    let before = action.preconditions();
    let after = action.postconditions();
    assert(conditions_agree(before, after) == same_condition(before[0], after[0]));
}

/// The check for an action is decided one to one by what the action does. Everything that is not on
/// a link alone is checked by the executor of copies.
pub proof fn check_is_decided_by_the_action(action: ActionView)
    ensures
        preflight_name(action) is Copy <==> !action.is_link(),
        preflight_name(action) is Create <==> action.is_link() && action is Create,
        preflight_name(action) is Relocate <==> action.is_link() && action is Relocate,
        preflight_name(action) is Remove <==> action.is_link() && action is Remove,
        preflight_name(action) is ForgetMissing <==> action.is_link() && action is ForgetMissing,
        preflight_name(action) is Noop <==> action.is_link() && action is Noop,
        action.is_link() && action is Replace ==> preflight_name(action) is Replace,
        preflight_name(action) is Replace ==> action is Replace || action is ReplaceOwnership,
        preflight_name(action) is SameSourceHandoff ==> action is ReplaceOwnership,
        action.is_link() <==> {
            &&& action !is ReplaceEffect
            &&& action.desired() is Some ==> action.desired()->0 is Link
            &&& action.previous() is Some ==> action.previous()->0 is Link
        },
        action.is_copy() <==> {
            &&& action !is ReplaceEffect
            &&& action !is ReplaceOwnership
            &&& action.desired() is Some ==> action.desired()->0 is Copy
            &&& action.previous() is Some ==> action.previous()->0 is Copy
        },
{
}

/// The targets after a call that is made for an action.
pub open spec fn called(
    name: ExecuteName,
    action: ActionView,
    targets: Map<Seq<char>, StandingView>,
) -> Map<Seq<char>, StandingView> {
    match name {
        ExecuteName::CreateLink | ExecuteName::CreateCopy => placed(action.desired()->0, targets),
        ExecuteName::ReplaceLink
        | ExecuteName::ReplaceCopy
        | ExecuteName::LinkToCopyHandoff
        | ExecuteName::CopyToLinkHandoff => placed(
            action.desired()->0,
            cleared(action.desired()->0, targets),
        ),
        ExecuteName::RelocateLink | ExecuteName::RelocateCopy => placed(
            action.desired()->0,
            cleared(action.previous()->0, targets),
        ),
        ExecuteName::RemoveLink | ExecuteName::RemoveCopy => cleared(
            action.previous()->0,
            targets,
        ),
        ExecuteName::SameSourceHandoff
        | ExecuteName::ForgetMissingLink
        | ExecuteName::ForgetMissingCopy => targets,
    }
}

/// The call for an action does to the targets what the action is to do, so that every
/// postcondition holds after it: the absence at the old target of a relocation, too.
pub proof fn call_does_what_the_action_does(
    action: ActionView,
    name: ExecuteName,
    targets: Map<Seq<char>, StandingView>,
)
    requires
        well_aimed(action),
        all_met(action.preconditions(), targets),
        execute_name(action) == Some(name),
    ensures
        called(name, action, targets) == performed(action, targets),
        all_met(action.postconditions(), called(name, action, targets)),
{
    changed_effect_has_to_stand(action, targets);
    if name is SameSourceHandoff {
        agreeing_conditions_leave_the_targets(action, targets);
    }
    assert(called(name, action, targets) =~= performed(action, targets));
    postconditions_hold_after_the_action(action, targets);
}

/// What is handed to an executor: a verified source of the resource where something is put in
/// place, and none where something is taken away or forgotten. What is to be put in place without a
/// verified source is refused, and so is a handoff from an effect to one of the same sort.
pub proof fn executor_is_given_the_source_it_needs(
    action: PlannedResourceAction,
    resolved: ResolvedApplyInput,
    outcome: Result<ExecuteCall, ResourceExecutionError>,
)
    requires
        call_ensures(execute, (&action, &resolved), outcome),
    ensures
        ({
            let takes_away = action@ is Remove || action@ is ForgetMissing;
            let sources = source_views(resolved.verified_sources@);
            &&& outcome is Err <==> !takes_away && (!is_verified(sources, action@.resource_id())
                || execute_name(action@) is None)
            &&& outcome matches Ok(call) ==> execute_name(action@) == Some(call.name) && (
            call.source is None <==> takes_away)
            &&& outcome matches Ok(call) ==> (call.source matches Some(source) ==> source@.resource_id
                == action@.resource_id() && sources.contains(source@))
        }),
{
    source_is_the_first_verified_one(
        source_views(resolved.verified_sources@),
        action@.resource_id(),
    );
}

/// What is handed to a check: a link that is to be put in place is checked with a verified source
/// of its resource, and refused without one. What takes a link away is checked without a source,
/// and a copy is checked with or without one.
pub proof fn check_is_given_the_source_it_needs(
    action: PlannedResourceAction,
    resolved: ResolvedApplyInput,
    outcome: Result<PreflightCall, ApplyError>,
)
    requires
        call_ensures(preflight, (&action, &resolved), outcome),
    ensures
        ({
            let takes_away = action@.is_link() && (action@ is Remove || action@ is ForgetMissing);
            let sources = source_views(resolved.verified_sources@);
            let verified = is_verified(sources, action@.resource_id());
            &&& outcome is Err <==> action@.is_link() && !takes_away && !verified
            &&& outcome matches Err(error) ==> (error matches ApplyError::MissingVerifiedSource {
                resource_id,
            } && resource_id@ == action@.resource_id())
            &&& outcome matches Ok(call) ==> call.name == preflight_name(action@) && (
            call.source is Some <==> verified && !takes_away)
            &&& outcome matches Ok(call) ==> (call.source matches Some(source) ==> source@.resource_id
                == action@.resource_id() && sources.contains(source@))
        }),
{
    source_is_the_first_verified_one(
        source_views(resolved.verified_sources@),
        action@.resource_id(),
    );
}

/// A failed check is told from every other by the error that it becomes, and keeps what was found.
pub proof fn failed_check_keeps_what_was_found(failure: PreflightFailure, error: ApplyError)
    requires
        call_ensures(preflight_error, (failure,), error),
    ensures
        (error matches ApplyError::Preflight(found) ==> failure == PreflightFailure::Create(found)),
        (error matches ApplyError::ReplacePreflight(found) ==> failure == PreflightFailure::Replace(
            found,
        )),
        (error matches ApplyError::RelocatePreflight(found) ==> failure
            == PreflightFailure::Relocate(found)),
        (error matches ApplyError::StalePreflight(found) ==> failure == PreflightFailure::Stale(
            found,
        )),
        (error matches ApplyError::CopyPreflight(found) ==> failure == PreflightFailure::Copy(found)),
        error is Preflight || error is ReplacePreflight || error is RelocatePreflight
            || error is StalePreflight || error is CopyPreflight,
{
}

} // verus!
