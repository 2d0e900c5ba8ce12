//! What an error of an executor says about the action that it stopped.

use vstd::prelude::*;
use crate::application::errors::{
    CreateLinkExecutionError, ForgetMissingExecutionError, RelocateLinkExecutionError,
    RemoveLinkExecutionError, ReplaceLinkExecutionError, ResourceExecutionError,
    StaleLinkExecutionError,
};
use crate::application::recovery::{
    recovery_decision, recovery_step, RecoveryDecision, RecoveryStep, RecoveryStepView,
};
use crate::domain::actual::TargetObservation;
use crate::domain::plan::{ConditionView, TargetCondition};
use crate::state::operation::{RecordedAction, RecordedView};

verus! {

/// What is known of an executed action.
#[derive(Clone, Copy, Debug, PartialEq, Eq, Structural)]
pub enum ExecutionClassification {
    Succeeded,
    Failed,
    Uncertain,
}

/// What a target shows after an attempt to put a link there.
pub open spec fn observed(observation: TargetObservation) -> ExecutionClassification {
    match observation {
        TargetObservation::ExpectedLink { .. } => ExecutionClassification::Succeeded,
        TargetObservation::Missing => ExecutionClassification::Failed,
        _ => ExecutionClassification::Uncertain,
    }
}

/// What a target shows after an attempt to put a link there.
pub fn classify_observation(observation: &TargetObservation) -> (classification:
    ExecutionClassification)
    ensures
        classification == observed(*observation),
{
    match observation {
        TargetObservation::ExpectedLink { .. } => ExecutionClassification::Succeeded,
        TargetObservation::Missing => ExecutionClassification::Failed,
        _ => ExecutionClassification::Uncertain,
    }
}

/// What a stopped create shows.
///
/// A link that matches after a failed create does not show who made it, and a create that was
/// never attempted adopts nothing.
pub open spec fn create_shows(error: CreateLinkExecutionError) -> ExecutionClassification {
    match error {
        CreateLinkExecutionError::CreateAttemptFailed { aftermath, .. } => if aftermath
            is ExpectedLink {
            ExecutionClassification::Uncertain
        } else {
            observed(aftermath)
        },
        CreateLinkExecutionError::PostconditionNotMet { observation, .. } => observed(observation),
        _ => ExecutionClassification::Uncertain,
    }
}

/// What a stopped create shows.
pub fn classify_execution_error(error: &CreateLinkExecutionError) -> (classification:
    ExecutionClassification)
    ensures
        classification == create_shows(*error),
{
    match error {
        CreateLinkExecutionError::CreateAttemptFailed { aftermath, .. } => match aftermath {
            TargetObservation::ExpectedLink { .. } => ExecutionClassification::Uncertain,
            _ => classify_observation(aftermath),
        },
        CreateLinkExecutionError::PostconditionNotMet { observation, .. } => classify_observation(
            observation,
        ),
        _ => ExecutionClassification::Uncertain,
    }
}

/// What a stopped replacement shows: a verified postcondition proves success despite an error.
pub open spec fn replace_shows(error: ReplaceLinkExecutionError) -> ExecutionClassification {
    match error {
        ReplaceLinkExecutionError::MutationAttempt { aftermath, .. }
        | ReplaceLinkExecutionError::Aftermath { aftermath, .. } => if aftermath.postcondition_holds {
            ExecutionClassification::Succeeded
        } else if aftermath.precondition_holds {
            ExecutionClassification::Failed
        } else {
            ExecutionClassification::Uncertain
        },
        _ => ExecutionClassification::Uncertain,
    }
}

/// What a stopped replacement shows.
pub fn classify_replace_execution_error(error: &ReplaceLinkExecutionError) -> (classification:
    ExecutionClassification)
    ensures
        classification == replace_shows(*error),
{
    match error {
        ReplaceLinkExecutionError::MutationAttempt { aftermath, .. }
        | ReplaceLinkExecutionError::Aftermath { aftermath, .. } => if aftermath.postcondition_holds {
            ExecutionClassification::Succeeded
        } else if aftermath.precondition_holds {
            ExecutionClassification::Failed
        } else {
            ExecutionClassification::Uncertain
        },
        _ => ExecutionClassification::Uncertain,
    }
}

/// What a stopped relocation shows: both targets decide together.
pub open spec fn relocate_shows(error: RelocateLinkExecutionError) -> ExecutionClassification {
    match error {
        RelocateLinkExecutionError::Aftermath { old_observation, new_observation, .. } =>
            if old_observation is Missing && new_observation is ExpectedLink {
                ExecutionClassification::Succeeded
            } else if old_observation is ExpectedLink && new_observation is Missing {
                ExecutionClassification::Failed
            } else {
                ExecutionClassification::Uncertain
            },
        _ => ExecutionClassification::Uncertain,
    }
}

/// What a stopped relocation shows.
pub fn classify_relocate_execution_error(error: &RelocateLinkExecutionError) -> (classification:
    ExecutionClassification)
    ensures
        classification == relocate_shows(*error),
{
    match error {
        RelocateLinkExecutionError::Aftermath { old_observation, new_observation, .. } => match (
            old_observation,
            new_observation,
        ) {
            (TargetObservation::Missing, TargetObservation::ExpectedLink { .. }) =>
                ExecutionClassification::Succeeded,
            (TargetObservation::ExpectedLink { .. }, TargetObservation::Missing) =>
                ExecutionClassification::Failed,
            _ => ExecutionClassification::Uncertain,
        },
        _ => ExecutionClassification::Uncertain,
    }
}

/// What a target shows after an attempt to take a link away.
pub open spec fn removal_observed(observation: TargetObservation) -> ExecutionClassification {
    match observation {
        TargetObservation::Missing => ExecutionClassification::Succeeded,
        TargetObservation::ExpectedLink { .. } => ExecutionClassification::Failed,
        _ => ExecutionClassification::Uncertain,
    }
}

/// What a stopped removal shows. A removal that was never attempted has failed.
pub open spec fn remove_shows(error: RemoveLinkExecutionError) -> ExecutionClassification {
    match error {
        RemoveLinkExecutionError::RemoveAttemptFailed { aftermath, .. } => removal_observed(
            aftermath,
        ),
        RemoveLinkExecutionError::PostconditionNotMet { observation, .. } => removal_observed(
            observation,
        ),
        RemoveLinkExecutionError::PreconditionNoLongerHolds { .. } =>
            ExecutionClassification::Failed,
        _ => ExecutionClassification::Uncertain,
    }
}

fn classify_removal_observation(observation: &TargetObservation) -> (classification:
    ExecutionClassification)
    ensures
        classification == removal_observed(*observation),
{
    match observation {
        TargetObservation::Missing => ExecutionClassification::Succeeded,
        TargetObservation::ExpectedLink { .. } => ExecutionClassification::Failed,
        _ => ExecutionClassification::Uncertain,
    }
}

/// What a stopped removal shows.
pub fn classify_remove_execution_error(error: &RemoveLinkExecutionError) -> (classification:
    ExecutionClassification)
    ensures
        classification == remove_shows(*error),
{
    match error {
        RemoveLinkExecutionError::RemoveAttemptFailed { aftermath, .. } =>
            classify_removal_observation(aftermath),
        RemoveLinkExecutionError::PostconditionNotMet { observation, .. } =>
            classify_removal_observation(observation),
        RemoveLinkExecutionError::PreconditionNoLongerHolds { .. } =>
            ExecutionClassification::Failed,
        _ => ExecutionClassification::Uncertain,
    }
}

/// What a stopped forgetting shows: a target that appeared keeps its recorded fact.
pub open spec fn forget_missing_shows(error: ForgetMissingExecutionError) -> ExecutionClassification {
    match error {
        ForgetMissingExecutionError::PostconditionNotMet { .. } => ExecutionClassification::Failed,
        _ => ExecutionClassification::Uncertain,
    }
}

/// What a stopped forgetting shows.
pub fn classify_forget_missing_execution_error(error: &ForgetMissingExecutionError) -> (classification:
    ExecutionClassification)
    ensures
        classification == forget_missing_shows(*error),
{
    match error {
        ForgetMissingExecutionError::PostconditionNotMet { .. } => ExecutionClassification::Failed,
        _ => ExecutionClassification::Uncertain,
    }
}

/// What a stopped action on a stale link shows.
pub open spec fn stale_shows(error: StaleLinkExecutionError) -> ExecutionClassification {
    match error {
        StaleLinkExecutionError::Remove(error) => remove_shows(error),
        StaleLinkExecutionError::ForgetMissing(error) => forget_missing_shows(error),
        StaleLinkExecutionError::UnsupportedAction { .. } => ExecutionClassification::Uncertain,
    }
}

/// What a stopped action on a stale link shows.
pub fn classify_stale_execution_error(error: &StaleLinkExecutionError) -> (classification:
    ExecutionClassification)
    ensures
        classification == stale_shows(*error),
{
    match error {
        StaleLinkExecutionError::Remove(error) => classify_remove_execution_error(error),
        StaleLinkExecutionError::ForgetMissing(error) => classify_forget_missing_execution_error(
            error,
        ),
        StaleLinkExecutionError::UnsupportedAction { .. } => ExecutionClassification::Uncertain,
    }
}

/// A decision on the recorded facts, as what is known of the executed action.
pub open spec fn as_classification(decision: RecoveryDecision) -> ExecutionClassification {
    match decision {
        RecoveryDecision::Succeeded => ExecutionClassification::Succeeded,
        RecoveryDecision::Failed => ExecutionClassification::Failed,
        RecoveryDecision::Uncertain => ExecutionClassification::Uncertain,
    }
}

/// A decision on the recorded facts, as what is known of the executed action.
pub fn recovery_decision_as_execution_classification(decision: RecoveryDecision) -> (classification:
    ExecutionClassification)
    ensures
        classification == as_classification(decision),
{
    match decision {
        RecoveryDecision::Succeeded => ExecutionClassification::Succeeded,
        RecoveryDecision::Failed => ExecutionClassification::Failed,
        RecoveryDecision::Uncertain => ExecutionClassification::Uncertain,
    }
}

/// Where a classification stands: a condition to look at, or the classification.
#[derive(Debug, PartialEq, Eq)]
pub enum ClassificationStep {
    Inspect { condition: TargetCondition },
    Classified { classification: ExecutionClassification },
}

/// Where a classification stands, as texts.
pub enum ClassificationStepView {
    Inspect { condition: ConditionView },
    Classified { classification: ExecutionClassification },
}

impl View for ClassificationStep {
    type V = ClassificationStepView;

    open spec fn view(&self) -> ClassificationStepView {
        match self {
            ClassificationStep::Inspect { condition } => ClassificationStepView::Inspect {
                condition: condition@,
            },
            ClassificationStep::Classified { classification } =>
                ClassificationStepView::Classified { classification: *classification },
        }
    }
}

/// What an error shows by itself. An error of the executor of copies shows nothing: the recorded
/// conditions decide.
pub open spec fn error_shows(error: ResourceExecutionError) -> Option<ExecutionClassification> {
    match error {
        ResourceExecutionError::CreateLink(error) => Some(create_shows(error)),
        ResourceExecutionError::ReplaceLink(error) => Some(replace_shows(error)),
        ResourceExecutionError::RelocateLink(error) => Some(relocate_shows(error)),
        ResourceExecutionError::StaleLink(error) => Some(stale_shows(error)),
        ResourceExecutionError::InvalidEffectHandoff => Some(ExecutionClassification::Uncertain),
        _ => None,
    }
}

/// Where the classification of an error stands, once the first conditions have been looked at.
/// A look that failed leaves the action uncertain.
pub open spec fn classification_step(
    action: RecordedView,
    error: ResourceExecutionError,
    looks: Option<Seq<bool>>,
) -> ClassificationStepView {
    match error_shows(error) {
        Some(classification) => ClassificationStepView::Classified { classification },
        None => match looks {
            None => ClassificationStepView::Classified {
                classification: ExecutionClassification::Uncertain,
            },
            Some(answers) => match recovery_step(action, answers) {
                RecoveryStepView::Inspect { condition } => ClassificationStepView::Inspect {
                    condition,
                },
                RecoveryStepView::Decided { decision } => ClassificationStepView::Classified {
                    classification: as_classification(decision),
                },
            },
        },
    }
}

/// The answers inside optional answers.
pub open spec fn looks_view(looks: Option<Vec<bool>>) -> Option<Seq<bool>> {
    match looks {
        Some(answers) => Some(answers@),
        None => None,
    }
}

/// Classifies the error of an executed action, one look at a time.
///
/// `looks` are the answers to the conditions that earlier calls asked about, in order, or none
/// once a look has failed.
pub fn classify_resource_execution_error(
    recorded: &RecordedAction,
    error: &ResourceExecutionError,
    looks: &Option<Vec<bool>>,
) -> (step: ClassificationStep)
    ensures
        step@ == classification_step(recorded@, *error, looks_view(*looks)),
{
    let classification = match error {
        ResourceExecutionError::CreateLink(error) => classify_execution_error(error),
        ResourceExecutionError::ReplaceLink(error) => classify_replace_execution_error(error),
        ResourceExecutionError::RelocateLink(error) => classify_relocate_execution_error(error),
        ResourceExecutionError::StaleLink(error) => classify_stale_execution_error(error),
        ResourceExecutionError::InvalidEffectHandoff => ExecutionClassification::Uncertain,
        _ => match looks {
            None => ExecutionClassification::Uncertain,
            Some(answers) => match recovery_decision(recorded, answers) {
                RecoveryStep::Inspect { condition } => {
                    return ClassificationStep::Inspect { condition };
                },
                RecoveryStep::Decided { decision } => recovery_decision_as_execution_classification(
                    decision,
                ),
            },
        },
    };
    ClassificationStep::Classified { classification }
}

/// What became of an executed action, with the error that goes with it.
#[derive(Debug, PartialEq, Eq)]
pub enum ExecutionOutcome<E> {
    Succeeded,
    Failed(E),
    Uncertain(E),
}

/// The outcome of a result whose error is classified.
pub open spec fn outcome_of<E>(
    result: Result<(), E>,
    classification: ExecutionClassification,
) -> ExecutionOutcome<E> {
    match result {
        Ok(_) => ExecutionOutcome::Succeeded,
        Err(error) => match classification {
            ExecutionClassification::Succeeded => ExecutionOutcome::Succeeded,
            ExecutionClassification::Failed => ExecutionOutcome::Failed(error),
            ExecutionClassification::Uncertain => ExecutionOutcome::Uncertain(error),
        },
    }
}

/// The outcome of a result, with what its error, if it has one, was classified as.
pub fn classify_execution<E>(result: Result<(), E>, classification: ExecutionClassification) -> (outcome:
    ExecutionOutcome<E>)
    ensures
        outcome == outcome_of(result, classification),
{
    match result {
        Ok(_) => ExecutionOutcome::Succeeded,
        Err(error) => match classification {
            ExecutionClassification::Succeeded => ExecutionOutcome::Succeeded,
            ExecutionClassification::Failed => ExecutionOutcome::Failed(error),
            ExecutionClassification::Uncertain => ExecutionOutcome::Uncertain(error),
        },
    }
}

/// A create that met an error is never counted as a success on the strength of a link that
/// matches, unless the create itself had returned and only its check failed.
pub proof fn failed_create_adopts_nothing(error: CreateLinkExecutionError)
    requires
        error !is PostconditionNotMet,
    ensures
        create_shows(error) !is Succeeded,
{
}

/// An error of a copy is never counted as a success of a create, whatever is observed.
pub proof fn failed_copy_create_adopts_nothing(
    action: RecordedView,
    error: ResourceExecutionError,
    looks: Option<Seq<bool>>,
)
    requires
        action.kind is CreateCopy,
        error_shows(error) is None,
    ensures
        classification_step(action, error, looks) != (ClassificationStepView::Classified {
            classification: ExecutionClassification::Succeeded,
        }),
{
}

/// What a target shows of a link that was to be put there, and what it shows of one that was to be
/// taken away, are each other's opposite: what proves the one done proves the other not done, and
/// whatever else is found proves neither.
pub proof fn target_shows_putting_and_taking_the_other_way_round(
    observation: TargetObservation,
    put: ExecutionClassification,
    message: String,
    taken: ExecutionClassification,
)
    requires
        call_ensures(classify_observation, (&observation,), put),
        call_ensures(
            classify_remove_execution_error,
            (&RemoveLinkExecutionError::PostconditionNotMet { observation, message },),
            taken,
        ),
    ensures
        put is Succeeded <==> observation is ExpectedLink,
        put is Failed <==> observation is Missing,
        taken is Succeeded <==> put is Failed,
        taken is Failed <==> put is Succeeded,
{
}

/// A stopped create is counted as done exactly if it had returned and the link stands as expected
/// afterwards. It is counted as not done exactly if its target was seen to be empty afterwards.
pub proof fn stopped_create_is_counted_by_its_target(
    error: CreateLinkExecutionError,
    classification: ExecutionClassification,
)
    requires
        call_ensures(classify_execution_error, (&error,), classification),
    ensures
        classification is Succeeded <==> (error matches
            CreateLinkExecutionError::PostconditionNotMet { observation, .. } && observation
            is ExpectedLink),
        classification is Failed <==> {
            ||| error matches CreateLinkExecutionError::PostconditionNotMet { observation, .. }
                && observation is Missing
            ||| error matches CreateLinkExecutionError::CreateAttemptFailed { aftermath, .. }
                && aftermath is Missing
        },
{
}

/// A stopped replacement is counted by what was found afterwards: as done exactly if the
/// postcondition holds, and otherwise as not done exactly if the precondition still holds.
pub proof fn stopped_replacement_is_counted_by_its_conditions(
    error: ReplaceLinkExecutionError,
    classification: ExecutionClassification,
)
    requires
        call_ensures(classify_replace_execution_error, (&error,), classification),
    ensures
        classification is Succeeded <==> {
            ||| error matches ReplaceLinkExecutionError::MutationAttempt { aftermath, .. }
                && aftermath.postcondition_holds
            ||| error matches ReplaceLinkExecutionError::Aftermath { aftermath, .. }
                && aftermath.postcondition_holds
        },
        classification is Failed <==> {
            ||| error matches ReplaceLinkExecutionError::MutationAttempt { aftermath, .. }
                && !aftermath.postcondition_holds && aftermath.precondition_holds
            ||| error matches ReplaceLinkExecutionError::Aftermath { aftermath, .. }
                && !aftermath.postcondition_holds && aftermath.precondition_holds
        },
{
}

/// A stopped relocation is counted by both of its targets: as done exactly if the old one is empty
/// and the link stands at the new one, and as not done exactly if it is the other way round.
pub proof fn stopped_relocation_is_counted_by_both_targets(
    error: RelocateLinkExecutionError,
    classification: ExecutionClassification,
)
    requires
        call_ensures(classify_relocate_execution_error, (&error,), classification),
    ensures
        classification is Succeeded <==> (error matches RelocateLinkExecutionError::Aftermath {
            old_observation,
            new_observation,
            ..
        } && old_observation is Missing && new_observation is ExpectedLink),
        classification is Failed <==> (error matches RelocateLinkExecutionError::Aftermath {
            old_observation,
            new_observation,
            ..
        } && old_observation is ExpectedLink && new_observation is Missing),
{
}

/// A stopped removal is counted as done exactly if its target was seen to be empty afterwards. It is
/// counted as not done exactly if the link was seen to stand, or it was never attempted.
pub proof fn stopped_removal_is_counted_by_its_target(
    error: RemoveLinkExecutionError,
    classification: ExecutionClassification,
)
    requires
        call_ensures(classify_remove_execution_error, (&error,), classification),
    ensures
        classification is Succeeded <==> {
            ||| error matches RemoveLinkExecutionError::RemoveAttemptFailed { aftermath, .. }
                && aftermath is Missing
            ||| error matches RemoveLinkExecutionError::PostconditionNotMet { observation, .. }
                && observation is Missing
        },
        classification is Failed <==> {
            ||| error matches RemoveLinkExecutionError::RemoveAttemptFailed { aftermath, .. }
                && aftermath is ExpectedLink
            ||| error matches RemoveLinkExecutionError::PostconditionNotMet { observation, .. }
                && observation is ExpectedLink
            ||| error is PreconditionNoLongerHolds
        },
{
}

/// A stopped forgetting is never counted as done. It is counted as not done exactly if something
/// was seen at its target.
pub proof fn stopped_forgetting_is_never_counted_as_done(
    error: ForgetMissingExecutionError,
    classification: ExecutionClassification,
)
    requires
        call_ensures(classify_forget_missing_execution_error, (&error,), classification),
    ensures
        classification !is Succeeded,
        classification is Failed <==> error is PostconditionNotMet,
{
}

/// A stopped action on a stale link is counted as the removal or the forgetting that it is.
pub proof fn stopped_stale_action_is_counted_as_what_it_is(
    error: StaleLinkExecutionError,
    classification: ExecutionClassification,
    removal: ExecutionClassification,
    forgetting: ExecutionClassification,
)
    requires
        call_ensures(classify_stale_execution_error, (&error,), classification),
        (error matches StaleLinkExecutionError::Remove(inner) ==> call_ensures(
            classify_remove_execution_error,
            (&inner,),
            removal,
        )),
        (error matches StaleLinkExecutionError::ForgetMissing(inner) ==> call_ensures(
            classify_forget_missing_execution_error,
            (&inner,),
            forgetting,
        )),
    ensures
        error is Remove ==> classification == removal,
        error is ForgetMissing ==> classification == forgetting,
        error is UnsupportedAction ==> classification is Uncertain,
{
}

/// What the recorded facts decide is what the action is counted as.
pub proof fn decision_on_the_facts_is_kept(
    decision: RecoveryDecision,
    classification: ExecutionClassification,
)
    requires
        call_ensures(recovery_decision_as_execution_classification, (decision,), classification),
    ensures
        classification is Succeeded <==> decision is Succeeded,
        classification is Failed <==> decision is Failed,
        classification is Uncertain <==> decision is Uncertain,
{
}

/// An error of a link decides by itself, and so does a handoff that cannot be made. Only an error
/// of a copy is decided by looks at the recorded conditions, and a look that failed leaves it
/// uncertain.
pub proof fn only_an_error_of_a_copy_needs_looks(
    recorded: RecordedAction,
    error: ResourceExecutionError,
    looks: Option<Vec<bool>>,
    step: ClassificationStep,
)
    requires
        call_ensures(classify_resource_execution_error, (&recorded, &error, &looks), step),
    ensures
        ({
            let of_a_link = error is CreateLink || error is ReplaceLink || error is RelocateLink
                || error is StaleLink || error is InvalidEffectHandoff;
            &&& of_a_link ==> step is Classified
            &&& !of_a_link && looks is None ==> step == (ClassificationStep::Classified {
                classification: ExecutionClassification::Uncertain,
            })
            &&& error is InvalidEffectHandoff ==> step == (ClassificationStep::Classified {
                classification: ExecutionClassification::Uncertain,
            })
            &&& !of_a_link && looks is Some ==> match recovery_step(recorded@, looks->0@) {
                RecoveryStepView::Inspect { condition } => step@ == (
                ClassificationStepView::Inspect { condition }),
                RecoveryStepView::Decided { decision } => step matches
                    ClassificationStep::Classified { classification } && (classification
                    is Succeeded <==> decision is Succeeded) && (classification is Failed
                    <==> decision is Failed),
            }
        }),
{
}

/// An error of a link is counted as its own kind of action is.
pub proof fn error_of_a_link_is_counted_as_its_own_kind(
    recorded: RecordedAction,
    error: ResourceExecutionError,
    looks: Option<Vec<bool>>,
    classification: ExecutionClassification,
    own: ExecutionClassification,
)
    requires
        call_ensures(
            classify_resource_execution_error,
            (&recorded, &error, &looks),
            (ClassificationStep::Classified { classification }),
        ),
        match error {
            ResourceExecutionError::CreateLink(inner) => call_ensures(
                classify_execution_error,
                (&inner,),
                own,
            ),
            ResourceExecutionError::ReplaceLink(inner) => call_ensures(
                classify_replace_execution_error,
                (&inner,),
                own,
            ),
            ResourceExecutionError::RelocateLink(inner) => call_ensures(
                classify_relocate_execution_error,
                (&inner,),
                own,
            ),
            ResourceExecutionError::StaleLink(inner) => call_ensures(
                classify_stale_execution_error,
                (&inner,),
                own,
            ),
            _ => false,
        },
    ensures
        classification == own,
{
}

/// An executed action is known to have succeeded exactly if it returned, or its error was counted
/// as done. Its error is kept in every other case, and with nothing added to it.
pub proof fn error_is_kept_unless_the_action_is_done(
    result: Result<(), ResourceExecutionError>,
    classification: ExecutionClassification,
    outcome: ExecutionOutcome<ResourceExecutionError>,
)
    requires
        call_ensures(
            classify_execution::<ResourceExecutionError>,
            (result, classification),
            outcome,
        ),
    ensures
        outcome is Succeeded <==> result is Ok || classification is Succeeded,
        outcome is Failed <==> result is Err && classification is Failed,
        outcome is Uncertain <==> result is Err && classification is Uncertain,
        (outcome matches ExecutionOutcome::Failed(error) ==> result == Err::<
            (),
            ResourceExecutionError,
        >(error)),
        (outcome matches ExecutionOutcome::Uncertain(error) ==> result == Err::<
            (),
            ResourceExecutionError,
        >(error)),
{
}

} // verus!
