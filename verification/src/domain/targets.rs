//! What actions do to the targets and to the record, and what their conditions keep safe.

use vstd::prelude::*;
use crate::domain::effects::{same_effect, EffectView};
use crate::domain::paths::{path_key, same_path};
use crate::domain::plan::{
    absent, condition_views, conditions_agree, fits, same_condition, stands, ActionView,
    ConditionView, PlannedResourceAction, TargetCondition, UpdateView,
};

verus! {

/// What stands at a target.
pub enum StandingView {
    Link { link_target: Seq<char> },
    Copy { content_fingerprint: Seq<char> },
}

/// What an effect puts at its target.
pub open spec fn standing(effect: EffectView) -> StandingView {
    match effect {
        EffectView::Link(link) => StandingView::Link { link_target: path_key(link.link_target) },
        EffectView::Copy(copy) => StandingView::Copy {
            content_fingerprint: copy.content_fingerprint,
        },
    }
}

/// Whether an effect stands among the targets.
pub open spec fn in_place(effect: EffectView, targets: Map<Seq<char>, StandingView>) -> bool {
    targets.contains_key(effect.target_key()) && targets[effect.target_key()] == standing(effect)
}

/// Whether a condition holds of the targets.
pub open spec fn met(condition: ConditionView, targets: Map<Seq<char>, StandingView>) -> bool {
    match condition {
        ConditionView::Missing { target_path } => !targets.contains_key(path_key(target_path)),
        ConditionView::ExpectedLink { target_path, link_target } => targets.contains_key(
            path_key(target_path),
        ) && targets[path_key(target_path)] == (StandingView::Link {
            link_target: path_key(link_target),
        }),
        ConditionView::ExpectedCopy { target_path, content_fingerprint } => targets.contains_key(
            path_key(target_path),
        ) && targets[path_key(target_path)] == (StandingView::Copy { content_fingerprint }),
    }
}

/// Whether every condition of a list holds of the targets.
pub open spec fn all_met(
    conditions: Seq<ConditionView>,
    targets: Map<Seq<char>, StandingView>,
) -> bool {
    forall|i: int| 0 <= i < conditions.len() ==> met(#[trigger] conditions[i], targets)
}

/// The targets without an effect.
pub open spec fn cleared(
    effect: EffectView,
    targets: Map<Seq<char>, StandingView>,
) -> Map<Seq<char>, StandingView> {
    targets.remove(path_key(effect.target_path()))
}

/// The targets with an effect.
pub open spec fn placed(
    effect: EffectView,
    targets: Map<Seq<char>, StandingView>,
) -> Map<Seq<char>, StandingView> {
    targets.insert(path_key(effect.target_path()), standing(effect))
}

/// The targets after an action: what was recorded is taken away, and what is wanted is put in place.
pub open spec fn performed(
    action: ActionView,
    targets: Map<Seq<char>, StandingView>,
) -> Map<Seq<char>, StandingView> {
    match action {
        ActionView::Create { desired } => placed(desired, targets),
        ActionView::Remove { previous } => cleared(previous, targets),
        ActionView::ForgetMissing { previous } => cleared(previous, targets),
        ActionView::Replace { desired, previous } => placed(desired, cleared(previous, targets)),
        ActionView::Relocate { desired, previous } => placed(desired, cleared(previous, targets)),
        ActionView::ReplaceOwnership { desired, previous } => placed(
            desired,
            cleared(previous, targets),
        ),
        ActionView::Noop { desired, previous } => placed(desired, cleared(previous, targets)),
        ActionView::ReplaceEffect { desired, previous } => placed(
            desired,
            cleared(previous, targets),
        ),
    }
}

/// Whether an action leads where its name says: a relocation to another target, and every other
/// action with two effects from one effect to another at the same target. A change of ownership
/// leads to another resource, and every other action stays with its own.
pub open spec fn well_aimed(action: ActionView) -> bool {
    match action {
        ActionView::Relocate { desired, previous } => !same_path(
            desired.target_path(),
            previous.target_path(),
        ) && desired.resource_id() == previous.resource_id(),
        ActionView::Replace { desired, previous } => same_path(
            desired.target_path(),
            previous.target_path(),
        ) && desired.resource_id() == previous.resource_id(),
        ActionView::ReplaceOwnership { desired, previous } => same_path(
            desired.target_path(),
            previous.target_path(),
        ) && desired.resource_id() != previous.resource_id(),
        ActionView::ReplaceEffect { desired, previous } => same_path(
            desired.target_path(),
            previous.target_path(),
        ) && desired.resource_id() == previous.resource_id(),
        ActionView::Noop { desired, previous } => same_effect(desired, previous),
        _ => true,
    }
}

/// A link action is always well aimed.
pub proof fn link_action_is_well_aimed(action: ActionView)
    requires
        fits(action),
    ensures
        well_aimed(action),
{
}

/// Whatever an action finds, its postconditions hold once it is done.
pub proof fn postconditions_hold_after_the_action(
    action: ActionView,
    targets: Map<Seq<char>, StandingView>,
)
    requires
        well_aimed(action),
    ensures
        action.postconditions().len() > 0,
        all_met(action.postconditions(), performed(action, targets)),
{
}

/// The postconditions tell everything that an action did: targets of which they hold, and which
/// are otherwise as they were, are the targets after the action.
pub proof fn postconditions_tell_what_was_done(
    action: ActionView,
    targets: Map<Seq<char>, StandingView>,
    after: Map<Seq<char>, StandingView>,
)
    requires
        well_aimed(action),
        all_met(action.postconditions(), after),
        forall|key: Seq<char>|
            (action.previous() is Some ==> key != path_key(action.previous()->0.target_path()))
                && (action.desired() is Some ==> key != path_key(action.desired()->0.target_path()))
                ==> (#[trigger] after.contains_key(key) <==> targets.contains_key(key))
                && after[key] == targets[key],
    ensures
        after == performed(action, targets),
{
    let done = performed(action, targets);
    let conditions = action.postconditions();
    assert(met(conditions[0], after));
    if action is Relocate {
        assert(met(conditions[1], after));
    }
    assert forall|key: Seq<char>| after.contains_key(key) == done.contains_key(key) && (
    after.contains_key(key) ==> after[key] == done[key]) by {}
    assert(after =~= done);
}

/// With its preconditions met, an action takes away nothing but the recorded effect that it starts
/// from: no other entry is lost or overwritten.
pub proof fn only_the_recorded_effect_is_lost(
    action: ActionView,
    targets: Map<Seq<char>, StandingView>,
    key: Seq<char>,
)
    requires
        well_aimed(action),
        all_met(action.preconditions(), targets),
        targets.contains_key(key),
        !performed(action, targets).contains_key(key) || performed(action, targets)[key]
            != targets[key],
    ensures
        action !is Create,
        action !is ForgetMissing,
        action !is Noop,
        action.previous() matches Some(previous) && key == path_key(previous.target_path())
            && targets[key] == standing(previous),
{
    let conditions = action.preconditions();
    assert(met(conditions[0], targets));
    if action is Relocate {
        assert(met(conditions[1], targets));
    }
}

/// An action changes no target but those that it touches.
pub proof fn only_touched_targets_change(
    action: ActionView,
    targets: Map<Seq<char>, StandingView>,
    key: Seq<char>,
)
    requires
        well_aimed(action),
        targets.contains_key(key) != performed(action, targets).contains_key(key)
            || targets.contains_key(key) && targets[key] != performed(action, targets)[key],
    ensures
        exists|i: int|
            0 <= i < action.touched().len() && path_key(#[trigger] action.touched()[i]) == key,
{
    let touched = action.touched();
    assert(path_key(touched[0]) == key || (touched.len() == 2 && path_key(touched[1]) == key));
}

/// An action touches the target of its recorded effect and the target of its wanted effect, and no
/// other.
pub proof fn touched_targets_are_those_of_the_effects(action: ActionView)
    requires
        well_aimed(action),
    ensures
        action.touched().len() == if action is Relocate {
            2int
        } else {
            1
        },
        forall|i: int|
            0 <= i < action.touched().len() ==> ((action.previous() matches Some(previous)
                && same_path(#[trigger] action.touched()[i], previous.target_path())) || (
            action.desired() matches Some(desired) && same_path(
                action.touched()[i],
                desired.target_path(),
            ))),
        action.previous() matches Some(previous) ==> exists|i: int|
            0 <= i < action.touched().len() && same_path(
                #[trigger] action.touched()[i],
                previous.target_path(),
            ),
        action.desired() matches Some(desired) ==> exists|i: int|
            0 <= i < action.touched().len() && same_path(
                #[trigger] action.touched()[i],
                desired.target_path(),
            ),
{
    let touched = action.touched();
    let first = touched[0];
    if action is Relocate {
        let second = touched[1];
        assert(same_path(second, action.desired()->0.target_path()));
    }
    if action.previous() is Some {
        assert(same_path(first, action.previous()->0.target_path()));
    }
    if action.desired() is Some && action !is Relocate {
        assert(same_path(first, action.desired()->0.target_path()));
    }
}

/// Every action that changes or takes away a recorded effect requires that effect to stand. An
/// action that puts an effect where none was recorded requires its target to be empty.
pub proof fn changed_effect_has_to_stand(
    action: ActionView,
    targets: Map<Seq<char>, StandingView>,
)
    requires
        all_met(action.preconditions(), targets),
    ensures
        action !is Create && action !is ForgetMissing ==> (action.previous() matches Some(previous)
            && in_place(previous, targets)),
        action is ForgetMissing ==> (action.previous() matches Some(previous)
            && !targets.contains_key(path_key(previous.target_path()))),
        action is Create || action is Relocate ==> (action.desired() matches Some(desired)
            && !targets.contains_key(path_key(desired.target_path()))),
{
    let conditions = action.preconditions();
    assert(met(conditions[0], targets));
    if action is Relocate {
        assert(met(conditions[1], targets));
    }
}

/// Nothing more is required than that: an action is ready as soon as its recorded effect stands, or
/// is gone where it is only forgotten, and its new target is empty.
pub proof fn action_requires_nothing_more(
    action: ActionView,
    targets: Map<Seq<char>, StandingView>,
)
    requires
        action !is Create && action !is ForgetMissing ==> in_place(action.previous()->0, targets),
        action is ForgetMissing ==> !targets.contains_key(
            path_key(action.previous()->0.target_path()),
        ),
        action is Create || action is Relocate ==> !targets.contains_key(
            path_key(action.desired()->0.target_path()),
        ),
    ensures
        all_met(action.preconditions(), targets),
{
}

/// The preconditions of an action, one by one: that its recorded effect stands, or is gone where it
/// is only forgotten, and that its new target is empty.
pub proof fn preconditions_are_these(action: ActionView, condition: ConditionView)
    ensures
        action.preconditions().contains(condition) <==> {
            ||| action !is Create && action !is ForgetMissing && condition == stands(
                action.previous()->0,
            )
            ||| action is ForgetMissing && condition == absent(action.previous()->0)
            ||| (action is Create || action is Relocate) && condition == absent(
                action.desired()->0,
            )
        },
{
    let conditions = action.preconditions();
    assert(conditions.contains(conditions[0]));
    if action is Relocate {
        assert(conditions.contains(conditions[1]));
    }
}

/// The postconditions of an action, one by one: that what it wants stands, and that what it takes
/// away, and puts nowhere else at the same target, is gone.
pub proof fn postconditions_are_these(action: ActionView, condition: ConditionView)
    ensures
        action.postconditions().contains(condition) <==> {
            ||| action !is Remove && action !is ForgetMissing && condition == stands(
                action.desired()->0,
            )
            ||| (action is Remove || action is ForgetMissing || action is Relocate) && condition
                == absent(action.previous()->0)
        },
{
    let conditions = action.postconditions();
    assert(conditions.contains(conditions[0]));
    if action is Relocate {
        assert(conditions.contains(conditions[1]));
    }
}

/// That an effect stands is a condition on its own target and its own content, and that it is gone
/// is a condition on its target alone.
pub proof fn conditions_speak_of_the_effect(
    effect: EffectView,
    targets: Map<Seq<char>, StandingView>,
)
    ensures
        met(stands(effect), targets) <==> in_place(effect, targets),
        met(absent(effect), targets) <==> !targets.contains_key(path_key(effect.target_path())),
        stands(effect).target_path() == effect.target_path(),
        absent(effect).target_path() == effect.target_path(),
        effect is Link <==> stands(effect) is ExpectedLink,
        effect is Copy <==> stands(effect) is ExpectedCopy,
{
}

/// What an action expects is never what it leaves, unless it leaves everything as it is: it only
/// forgets or reports, or the effect that it wants already stands.
pub proof fn action_that_changes_something_tells_before_from_after(action: ActionView)
    ensures
        action is Remove ==> !conditions_agree(action.preconditions(), action.postconditions()),
        action is Create ==> !conditions_agree(action.preconditions(), action.postconditions()),
        action is Relocate ==> !conditions_agree(action.preconditions(), action.postconditions()),
        action is ForgetMissing ==> conditions_agree(
            action.preconditions(),
            action.postconditions(),
        ),
        action.desired() is Some && action.previous() is Some && action !is Relocate ==> (
        conditions_agree(action.preconditions(), action.postconditions()) <==> same_path(
            action.desired()->0.target_path(),
            action.previous()->0.target_path(),
        ) && standing(action.desired()->0) == standing(action.previous()->0)),
{
    let before = action.preconditions();
    let after = action.postconditions();
    if conditions_agree(before, after) {
        assert(same_condition(before[0], after[0]));
    }
}

/// The targets after an action that expects what it leaves are the targets before it.
pub proof fn agreeing_conditions_leave_the_targets(
    action: ActionView,
    targets: Map<Seq<char>, StandingView>,
)
    requires
        well_aimed(action),
        all_met(action.preconditions(), targets),
        conditions_agree(action.preconditions(), action.postconditions()),
    ensures
        performed(action, targets) == targets,
{
    let before = action.preconditions();
    let after = action.postconditions();
    assert(met(before[0], targets));
    assert(same_condition(before[0], after[0]));
    assert(performed(action, targets) =~= targets);
}

/// The record after a transition.
pub open spec fn noted(
    update: Option<UpdateView>,
    record: Map<Seq<char>, EffectView>,
) -> Map<Seq<char>, EffectView> {
    match update {
        None => record,
        Some(UpdateView::Upsert { resource }) => record.insert(resource.resource_id(), resource),
        Some(UpdateView::Remove { resource_id }) => record.remove(resource_id),
        Some(UpdateView::ReplaceIdentity { old_resource_id, new_resource }) => record.remove(
            old_resource_id,
        ).insert(new_resource.resource_id(), new_resource),
    }
}

/// An action leaves its wanted effect on record, and takes its recorded effect off it where nothing
/// is wanted in its place. What was on record of any other resource stays.
pub proof fn record_follows_the_action(
    action: ActionView,
    record: Map<Seq<char>, EffectView>,
    id: Seq<char>,
)
    requires
        well_aimed(action),
        action.previous() matches Some(previous) ==> record.contains_key(previous.resource_id())
            && record[previous.resource_id()] == previous,
    ensures
        ({
            let after = noted(action.update(), record);
            &&& action.desired() matches Some(desired) ==> after.contains_key(desired.resource_id())
                && same_effect(after[desired.resource_id()], desired)
            &&& action.desired() is None ==> !after.contains_key(
                action.previous()->0.resource_id(),
            )
            &&& action is ReplaceOwnership ==> !after.contains_key(
                action.previous()->0.resource_id(),
            )
            &&& (action.desired() matches Some(desired) ==> id != desired.resource_id()) && (
            action.previous() matches Some(previous) ==> id != previous.resource_id()) ==> (
            after.contains_key(id) <==> record.contains_key(id)) && after[id] == record[id]
        }),
{
}

/// Whether every effect on record stands, but for that of one resource.
pub open spec fn record_stands(
    record: Map<Seq<char>, EffectView>,
    targets: Map<Seq<char>, StandingView>,
    exempt: Option<Seq<char>>,
) -> bool {
    forall|id: Seq<char>|
        #[trigger] record.contains_key(id) && exempt != Some(id) ==> in_place(record[id], targets)
}

/// Whether the effects on record have different targets, each under its own resource.
pub open spec fn record_is_separate(record: Map<Seq<char>, EffectView>) -> bool {
    &&& forall|id: Seq<char>| #[trigger] record.contains_key(id) ==> record[id].resource_id() == id
    &&& forall|left: Seq<char>, right: Seq<char>|
        #[trigger] record.contains_key(left) && #[trigger] record.contains_key(right) && left
            != right ==> record[left].target_key() != record[right].target_key()
}

/// What is on record stands: an action whose preconditions were met, together with the transition
/// that it makes eligible, keeps every effect on record in place. Of the resource that the action
/// starts from, nothing has to be known beforehand.
pub proof fn what_is_on_record_stands_after_an_action(
    action: ActionView,
    record: Map<Seq<char>, EffectView>,
    targets: Map<Seq<char>, StandingView>,
)
    requires
        well_aimed(action),
        record_is_separate(record),
        action.previous() matches Some(previous) ==> record.contains_key(previous.resource_id())
            && record[previous.resource_id()] == previous,
        record_stands(
            record,
            targets,
            match action.previous() {
                Some(previous) => Some(previous.resource_id()),
                None => None,
            },
        ),
        all_met(action.preconditions(), targets),
    ensures
        record_stands(noted(action.update(), record), performed(action, targets), None),
{
    let after = noted(action.update(), record);
    let done = performed(action, targets);
    let conditions = action.preconditions();
    assert(met(conditions[0], targets));
    if action is Relocate {
        assert(met(conditions[1], targets));
    }
    assert forall|id: Seq<char>| #[trigger] after.contains_key(id) implies in_place(
        after[id],
        done,
    ) by {
        if record.contains_key(id) && after[id] == record[id] {
            if action.previous() is Some {
                assert(record.contains_key(action.previous()->0.resource_id()));
            }
        }
    }
}

/// What an action does is told by its kind: every kind is that of one transition of one effect.
pub proof fn kind_tells_the_transition(action: ActionView)
    ensures
        action.kind() is CreateLink <==> action is Create && action.desired()->0 is Link,
        action.kind() is CreateCopy <==> action is Create && action.desired()->0 is Copy,
        action.kind() is ReplaceLink <==> action is Replace && action.desired()->0 is Link,
        action.kind() is ReplaceCopy <==> action is Replace && action.desired()->0 is Copy,
        action.kind() is RelocateLink <==> action is Relocate && action.desired()->0 is Link,
        action.kind() is RelocateCopy <==> action is Relocate && action.desired()->0 is Copy,
        action.kind() is RemoveLink <==> action is Remove && action.previous()->0 is Link,
        action.kind() is RemoveCopy <==> action is Remove && action.previous()->0 is Copy,
        action.kind() is ReplaceOwnership <==> action is ReplaceOwnership,
        action.kind() is ForgetMissing <==> action is ForgetMissing,
        action.kind() is Noop <==> action is Noop,
        action.kind() is ReplaceEffect <==> action is ReplaceEffect,
{
}

/// Why an action is selected is told by its reason.
pub proof fn reason_tells_the_transition(action: ActionView)
    ensures
        action.reason() is TargetMissing <==> action is Create,
        action.reason() is SourceChanged <==> action is Replace || action is ReplaceEffect,
        action.reason() is TargetChanged <==> action is Relocate,
        action.reason() is ManagedIdentityHandoff <==> action is ReplaceOwnership,
        action.reason() is StaleResource <==> action is Remove,
        action.reason() is StaleResourceTargetMissing <==> action is ForgetMissing,
        action.reason() is AlreadySatisfied <==> action is Noop,
{
}

/// The wanted and the recorded effect of an action are those that it was made of. It goes by the
/// name of the wanted one, or else of the recorded one.
pub proof fn action_names_its_effects(action: ActionView)
    ensures
        action.desired() is None <==> action is Remove || action is ForgetMissing,
        action.previous() is None <==> action is Create,
        (action matches ActionView::Create { desired } ==> action.desired() == Some(desired)),
        (action matches ActionView::Remove { previous } ==> action.previous() == Some(previous)),
        (action matches ActionView::ForgetMissing { previous } ==> action.previous() == Some(previous)),
        (action matches ActionView::Replace { desired, previous } ==> action.desired() == Some(desired)
            && action.previous() == Some(previous)),
        (action matches ActionView::Relocate { desired, previous } ==> action.desired() == Some(desired)
            && action.previous() == Some(previous)),
        (action matches ActionView::ReplaceOwnership { desired, previous } ==> action.desired() == Some(desired)
            && action.previous() == Some(previous)),
        (action matches ActionView::Noop { desired, previous } ==> action.desired() == Some(desired)
            && action.previous() == Some(previous)),
        (action matches ActionView::ReplaceEffect { desired, previous } ==> action.desired() == Some(desired)
            && action.previous() == Some(previous)),
        action.desired() is Some ==> action.resource_id() == action.desired()->0.resource_id(),
        action.desired() is None ==> action.resource_id() == action.previous()->0.resource_id(),
{
}

/// Ownership passes in a change of ownership alone, and it passes from the recorded resource to
/// another.
pub proof fn ownership_passes_in_a_handoff_alone(action: ActionView)
    ensures
        action.replaced_resource_id() is Some <==> action is ReplaceOwnership,
        action.replaced_resource_id() matches Some(id) ==> id == action.previous()->0.resource_id(),
        action.replaced_resource_id() is Some && well_aimed(action)
            ==> action.replaced_resource_id() != Some(action.resource_id()),
{
}

/// What a planned action reports to its executor is what its transition requires and leaves.
pub proof fn planned_conditions_keep_the_targets_safe(
    action: PlannedResourceAction,
    before: Vec<TargetCondition>,
    after: Vec<TargetCondition>,
    targets: Map<Seq<char>, StandingView>,
    key: Seq<char>,
)
    requires
        call_ensures(PlannedResourceAction::preconditions, (&action,), before),
        call_ensures(PlannedResourceAction::postconditions, (&action,), after),
        well_aimed(action@),
        all_met(condition_views(before@), targets),
    ensures
        all_met(condition_views(after@), performed(action@, targets)),
        targets.contains_key(key) && (!performed(action@, targets).contains_key(key) || performed(
            action@,
            targets,
        )[key] != targets[key]) ==> (action@.previous() matches Some(previous) && key == path_key(
            previous.target_path(),
        ) && targets[key] == standing(previous)),
{
    postconditions_hold_after_the_action(action@, targets);
    if targets.contains_key(key) && (!performed(action@, targets).contains_key(key) || performed(
        action@,
        targets,
    )[key] != targets[key]) {
        only_the_recorded_effect_is_lost(action@, targets, key);
    }
}

} // verus!
