use loadout::application::classification::{
    classify_execution, classify_execution_error, classify_forget_missing_execution_error,
    classify_observation, classify_relocate_execution_error, classify_remove_execution_error,
    classify_replace_execution_error, recovery_decision_as_execution_classification,
    ExecutionClassification, ExecutionOutcome,
};
use loadout::application::errors::{
    to_kind_name, ApplyError, CreateLinkExecutionError, ForgetMissingExecutionError,
    RelocateLinkExecutionError, RemoveLinkExecutionError, ReplaceAftermath,
    ReplaceLinkExecutionError,
};
use loadout::application::recovery::RecoveryDecision;
use loadout::domain::actual::TargetObservation;
use loadout::domain::file_link::LinkTarget;
use loadout::domain::paths::{Platform, ResolvedPath};
use loadout::domain::plan::ActionKind;

fn target() -> LinkTarget {
    LinkTarget::new(ResolvedPath::new("/s/a", Platform::Unix).unwrap())
}

fn expected() -> TargetObservation {
    TargetObservation::ExpectedLink {
        link_target: target(),
    }
}

fn other() -> TargetObservation {
    TargetObservation::OtherLink {
        link_target: target(),
    }
}

fn message() -> String {
    "stopped".to_string()
}

#[test]
fn an_observation_shows_whether_a_link_was_made() {
    assert_eq!(
        classify_observation(&expected()),
        ExecutionClassification::Succeeded
    );
    assert_eq!(
        classify_observation(&TargetObservation::Missing),
        ExecutionClassification::Failed
    );
    assert_eq!(
        classify_observation(&other()),
        ExecutionClassification::Uncertain
    );
}

#[test]
fn a_failed_create_is_never_taken_for_a_success() {
    for (aftermath, shown) in [
        (expected(), ExecutionClassification::Uncertain),
        (TargetObservation::Missing, ExecutionClassification::Failed),
        (other(), ExecutionClassification::Uncertain),
    ] {
        assert_eq!(
            classify_execution_error(&CreateLinkExecutionError::CreateAttemptFailed {
                aftermath,
                message: message(),
            }),
            shown
        );
    }
}

#[test]
fn a_replacement_is_judged_by_both_conditions() {
    for (precondition_holds, postcondition_holds, shown) in [
        (false, true, ExecutionClassification::Succeeded),
        (true, true, ExecutionClassification::Succeeded),
        (true, false, ExecutionClassification::Failed),
        (false, false, ExecutionClassification::Uncertain),
    ] {
        assert_eq!(
            classify_replace_execution_error(&ReplaceLinkExecutionError::Aftermath {
                aftermath: ReplaceAftermath {
                    precondition_holds,
                    postcondition_holds,
                },
                message: message(),
            }),
            shown
        );
    }
}

#[test]
fn a_relocation_is_judged_by_both_targets() {
    for (old_observation, new_observation, shown) in [
        (
            TargetObservation::Missing,
            expected(),
            ExecutionClassification::Succeeded,
        ),
        (
            expected(),
            TargetObservation::Missing,
            ExecutionClassification::Failed,
        ),
        (expected(), expected(), ExecutionClassification::Uncertain),
    ] {
        assert_eq!(
            classify_relocate_execution_error(&RelocateLinkExecutionError::Aftermath {
                old_observation,
                new_observation,
                message: message(),
            }),
            shown
        );
    }
}

#[test]
fn a_removal_is_judged_by_what_is_left() {
    for (aftermath, shown) in [
        (TargetObservation::Missing, ExecutionClassification::Succeeded),
        (expected(), ExecutionClassification::Failed),
        (other(), ExecutionClassification::Uncertain),
    ] {
        assert_eq!(
            classify_remove_execution_error(&RemoveLinkExecutionError::RemoveAttemptFailed {
                aftermath,
                message: message(),
            }),
            shown
        );
    }
    assert_eq!(
        classify_forget_missing_execution_error(
            &ForgetMissingExecutionError::PostconditionNotMet { message: message() }
        ),
        ExecutionClassification::Failed
    );
}

#[test]
fn an_outcome_carries_its_error_unless_it_succeeded() {
    assert!(matches!(
        classify_execution::<&str>(Ok(()), ExecutionClassification::Uncertain),
        ExecutionOutcome::Succeeded
    ));
    assert!(matches!(
        classify_execution(Err("x"), ExecutionClassification::Succeeded),
        ExecutionOutcome::Succeeded
    ));
    assert!(matches!(
        classify_execution(Err("x"), ExecutionClassification::Failed),
        ExecutionOutcome::Failed("x")
    ));
    assert!(matches!(
        classify_execution(Err("x"), ExecutionClassification::Uncertain),
        ExecutionOutcome::Uncertain("x")
    ));
    assert_eq!(
        recovery_decision_as_execution_classification(RecoveryDecision::Failed),
        ExecutionClassification::Failed
    );
}

#[test]
fn apply_errors_name_the_kinds_they_met() {
    assert_eq!(to_kind_name(ActionKind::CreateLink), "CreateLink");
    let text = ApplyError::SliceFourRequiresSingleCreateAction {
        action_kinds: vec![ActionKind::CreateLink, ActionKind::Noop],
    }
    .to_text();
    assert!(text.contains("[CreateLink, Noop]"), "{text}");
}
