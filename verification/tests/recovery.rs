use loadout::application::reconcile::{
    reconcile_active_operation, reconcile_active_operation_with_action,
    reconcile_active_operation_with_action_and_cleanup, RecoveryReply, RecoveryRequest,
};
use loadout::application::recovery::{
    condition_holds, inspection_for, recovery_decision, RecoveryDecision, RecoveryStep,
    TargetInspection,
};
use loadout::domain::actual::{ActualFileLink, ActualResource, TargetObservation};
use loadout::domain::file_copy::ContentFingerprint;
use loadout::domain::file_link::LinkTarget;
use loadout::domain::ids::FullyQualifiedResourceId;
use loadout::domain::known::{KnownFileCopy, KnownFileLink, KnownResource};
use loadout::domain::paths::{Platform, ResolvedPath};
use loadout::domain::plan::{ActionKind, TargetCondition};
use loadout::state::operation::{
    ActionId, ActionStatus, RecordedAction, RecordedActionError, RecordedEntry, RecordedFacts,
};
use loadout::state::repository::{CommitFailureEffect, StateRepositoryError};

fn id(text: &str) -> FullyQualifiedResourceId {
    FullyQualifiedResourceId::new(text.to_string())
}

fn path(text: &str) -> ResolvedPath {
    ResolvedPath::new(text, Platform::Unix).unwrap()
}

fn fingerprint(digit: &str) -> ContentFingerprint {
    ContentFingerprint::parse(format!("sha256:{}", digit.repeat(64))).unwrap()
}

fn missing(target: &str) -> TargetCondition {
    TargetCondition::Missing {
        target_path: path(target),
    }
}

fn link(target: &str, source: &str) -> TargetCondition {
    TargetCondition::ExpectedLink {
        target_path: path(target),
        link_target: LinkTarget::new(path(source)),
    }
}

fn copied(target: &str, digit: &str) -> TargetCondition {
    TargetCondition::ExpectedCopy {
        target_path: path(target),
        content_fingerprint: fingerprint(digit),
    }
}

fn known_copy(target: &str, digit: &str) -> KnownResource {
    KnownResource::FileCopy(
        KnownFileCopy::new(id("base/git"), path("/s/a"), path(target), fingerprint(digit)).unwrap(),
    )
}

fn known_link(target: &str, source: &str) -> KnownResource {
    KnownResource::FileLink(
        KnownFileLink::new(
            id("base/git"),
            path(source),
            path(target),
            LinkTarget::new(path(source)),
        )
        .unwrap(),
    )
}

fn recorded(
    kind: ActionKind,
    precondition: TargetCondition,
    postcondition: TargetCondition,
    status: ActionStatus,
    temporary: Option<&str>,
    facts: RecordedFacts,
) -> RecordedAction {
    RecordedAction::from_persisted(
        kind,
        id("base/git"),
        path("/h/a"),
        precondition,
        postcondition,
        status,
        temporary.map(path),
        facts,
    )
    .unwrap()
}

fn create(status: ActionStatus) -> RecordedAction {
    recorded(
        ActionKind::CreateLink,
        missing("/h/a"),
        link("/h/a", "/s/a"),
        status,
        None,
        RecordedFacts::Plain,
    )
}

fn entry(name: &str, action: RecordedAction) -> RecordedEntry {
    RecordedEntry {
        id: ActionId::new(name.to_string()),
        action,
    }
}

/// What stands at the targets, and what the session did to the record.
struct World {
    inspector: bool,
    holding: Vec<TargetCondition>,
    temporaries: Vec<TargetCondition>,
    cleanable: bool,
    refused: Option<&'static str>,
    log: Vec<String>,
}

impl World {
    fn holding(conditions: Vec<TargetCondition>) -> Self {
        World {
            inspector: true,
            holding: conditions,
            temporaries: vec![],
            cleanable: true,
            refused: None,
            log: vec![],
        }
    }

    fn refusal() -> StateRepositoryError {
        StateRepositoryError::Commit {
            effect: CommitFailureEffect::PreviousStateRetained,
            message: "refused".to_string(),
        }
    }

    fn stored(&mut self, what: String) -> RecoveryReply {
        let refused = self.refused.is_some_and(|name| what.starts_with(name));
        self.log.push(what);
        RecoveryReply::Stored {
            error: if refused { Some(Self::refusal()) } else { None },
        }
    }

    fn answer(&mut self, request: RecoveryRequest) -> RecoveryReply {
        match request {
            RecoveryRequest::OpenInspector => RecoveryReply::Inspector {
                available: self.inspector,
            },
            RecoveryRequest::Proceed => RecoveryReply::Proceed,
            RecoveryRequest::Inspect { condition } => RecoveryReply::Looked {
                answer: Some(self.holding.contains(&condition)),
            },
            RecoveryRequest::CleanReplacement { .. } | RecoveryRequest::CleanCopy { .. } => {
                self.log.push("clean".to_string());
                if self.cleanable {
                    let gone = std::mem::take(&mut self.temporaries);
                    self.holding.extend(gone);
                }
                RecoveryReply::Cleaned {
                    done: self.cleanable,
                }
            }
            RecoveryRequest::Record { action_id, status } => {
                self.stored(format!("{} {status:?}", action_id.as_str()))
            }
            RecoveryRequest::Commit { action_id } => {
                self.stored(format!("{} commit", action_id.as_str()))
            }
            RecoveryRequest::Close => self.stored("close".to_string()),
            RecoveryRequest::Finished => unreachable!(),
        }
    }

    /// Whether the operation stays open, or why the repository refused.
    fn recover(&mut self, entries: Vec<RecordedEntry>) -> Result<bool, StateRepositoryError> {
        let mut session = reconcile_active_operation(Some(entries));
        loop {
            let request = session.request();
            if request == RecoveryRequest::Finished {
                assert!(session.has_ended());
                return reconcile_active_operation_with_action(session)
                    .unwrap()
                    .outcome;
            }
            let reply = self.answer(request);
            session = reconcile_active_operation_with_action_and_cleanup(session, reply);
        }
    }
}

#[test]
fn recovery_skips_a_pending_action_without_mutating_known_state() {
    let mut world = World::holding(vec![]);
    assert!(!world
        .recover(vec![entry("a1", create(ActionStatus::Pending))])
        .unwrap());
    assert_eq!(world.log, ["a1 Skipped", "close"]);
}

#[test]
fn recovery_marks_a_running_create_failed_when_its_precondition_still_holds() {
    let mut world = World::holding(vec![missing("/h/a")]);
    assert!(!world
        .recover(vec![entry("a1", create(ActionStatus::Running))])
        .unwrap());
    assert_eq!(world.log, ["a1 Failed", "close"]);
}

#[test]
fn recovery_keeps_a_running_create_with_matching_link_uncertain() {
    let mut world = World::holding(vec![link("/h/a", "/s/a")]);
    assert!(world
        .recover(vec![entry("a1", create(ActionStatus::Running))])
        .unwrap());
    assert_eq!(world.log, ["a1 Uncertain"]);
}

#[test]
fn recovery_keeps_an_uncertain_create_with_matching_link_open() {
    let mut world = World::holding(vec![link("/h/a", "/s/a")]);
    assert!(world
        .recover(vec![entry("a1", create(ActionStatus::Uncertain))])
        .unwrap());
    assert!(world.log.is_empty());
}

#[test]
fn recovery_marks_running_actions_uncertain_when_the_home_cannot_be_inspected() {
    let mut world = World::holding(vec![missing("/h/a")]);
    world.inspector = false;
    assert!(world
        .recover(vec![entry("a1", create(ActionStatus::Running))])
        .unwrap());
    assert_eq!(world.log, ["a1 Uncertain"]);
}

#[test]
fn recovery_commits_or_fails_remove_link_from_its_recorded_conditions() {
    let remove = || {
        recorded(
            ActionKind::RemoveLink,
            link("/h/a", "/s/a"),
            missing("/h/a"),
            ActionStatus::Running,
            None,
            RecordedFacts::Plain,
        )
    };
    let mut world = World::holding(vec![missing("/h/a")]);
    assert!(!world.recover(vec![entry("a1", remove())]).unwrap());
    assert_eq!(world.log, ["a1 commit", "close"]);
    let mut world = World::holding(vec![link("/h/a", "/s/a")]);
    assert!(!world.recover(vec![entry("a1", remove())]).unwrap());
    assert_eq!(world.log, ["a1 Failed", "close"]);
    let mut world = World::holding(vec![]);
    assert!(world.recover(vec![entry("a1", remove())]).unwrap());
    assert_eq!(world.log, ["a1 Uncertain"]);
}

#[test]
fn recovery_commits_forget_missing_and_keeps_a_lost_precondition_uncertain() {
    let forget = || {
        recorded(
            ActionKind::ForgetMissing,
            missing("/h/a"),
            missing("/h/a"),
            ActionStatus::Running,
            None,
            RecordedFacts::Plain,
        )
    };
    let mut world = World::holding(vec![missing("/h/a")]);
    assert!(!world.recover(vec![entry("a1", forget())]).unwrap());
    assert_eq!(world.log, ["a1 commit", "close"]);
    let mut world = World::holding(vec![]);
    assert!(world.recover(vec![entry("a1", forget())]).unwrap());
    assert_eq!(world.log, ["a1 Uncertain"]);
}

fn replace() -> RecordedAction {
    recorded(
        ActionKind::ReplaceLink,
        link("/h/a", "/s/old"),
        link("/h/a", "/s/new"),
        ActionStatus::Running,
        Some("/h/.temporary"),
        RecordedFacts::Replacement,
    )
}

#[test]
fn recovery_commits_or_fails_replace_link_from_its_recorded_conditions() {
    let gone = missing("/h/.temporary");
    let mut world = World::holding(vec![gone.clone(), link("/h/a", "/s/new")]);
    assert!(!world.recover(vec![entry("a1", replace())]).unwrap());
    assert_eq!(world.log, ["a1 commit", "close"]);
    let mut world = World::holding(vec![gone, link("/h/a", "/s/old")]);
    assert!(!world.recover(vec![entry("a1", replace())]).unwrap());
    assert_eq!(world.log, ["a1 Failed", "close"]);
}

#[test]
fn recovery_removes_only_the_recorded_expected_replacement_temporary() {
    let mut world = World::holding(vec![link("/h/a", "/s/old")]);
    world.temporaries = vec![missing("/h/.temporary")];
    assert!(!world.recover(vec![entry("a1", replace())]).unwrap());
    assert_eq!(world.log, ["clean", "a1 Failed", "close"]);
}

#[test]
fn recovery_keeps_a_replacement_with_an_unexpected_temporary_entry_uncertain() {
    let mut world = World::holding(vec![link("/h/a", "/s/old")]);
    world.cleanable = false;
    assert!(world.recover(vec![entry("a1", replace())]).unwrap());
    assert_eq!(world.log, ["clean", "a1 Uncertain"]);
    let mut world = World::holding(vec![link("/h/a", "/s/new")]);
    assert!(world.recover(vec![entry("a1", replace())]).unwrap());
    assert_eq!(world.log, ["a1 Uncertain"]);
}

fn relocate() -> RecordedAction {
    recorded(
        ActionKind::RelocateLink,
        link("/h/old", "/s/a"),
        link("/h/new", "/s/b"),
        ActionStatus::Running,
        None,
        RecordedFacts::Relocation {
            old_target_path: path("/h/old"),
            old_link_target: LinkTarget::new(path("/s/a")),
            new_target_path: path("/h/new"),
            new_link_target: LinkTarget::new(path("/s/b")),
        },
    )
}

#[test]
fn recovery_commits_or_fails_relocation_from_its_recorded_conditions() {
    let mut world = World::holding(vec![missing("/h/old"), link("/h/new", "/s/b")]);
    assert!(!world.recover(vec![entry("a1", relocate())]).unwrap());
    assert_eq!(world.log, ["a1 commit", "close"]);
    let mut world = World::holding(vec![link("/h/old", "/s/a"), missing("/h/new")]);
    assert!(!world.recover(vec![entry("a1", relocate())]).unwrap());
    assert_eq!(world.log, ["a1 Failed", "close"]);
}

#[test]
fn recovery_keeps_a_partial_relocation_uncertain() {
    let mut world = World::holding(vec![link("/h/old", "/s/a"), link("/h/new", "/s/b")]);
    assert!(world.recover(vec![entry("a1", relocate())]).unwrap());
    assert_eq!(world.log, ["a1 Uncertain"]);
}

#[test]
fn recovery_preserves_a_running_action_when_its_state_commit_fails() {
    let mut world = World::holding(vec![missing("/h/old"), link("/h/new", "/s/b")]);
    world.refused = Some("a1");
    assert_eq!(
        world.recover(vec![entry("a1", relocate())]).unwrap_err(),
        World::refusal()
    );
    assert_eq!(world.log, ["a1 commit"]);
}

#[test]
fn recovery_keeps_matching_final_copy_create_uncertain_without_known_update() {
    let create = recorded(
        ActionKind::CreateCopy,
        missing("/h/a"),
        copied("/h/a", "a"),
        ActionStatus::Running,
        None,
        RecordedFacts::Copy {
            old_effect: None,
            target_path: path("/h/a"),
        },
    );
    let mut world = World::holding(vec![copied("/h/a", "a")]);
    assert!(world.recover(vec![entry("a1", create)]).unwrap());
    assert_eq!(world.log, ["a1 Uncertain"]);
}

#[test]
fn recovery_cleans_an_exact_copy_temporary_then_fails_and_keeps_old_known() {
    let replace = recorded(
        ActionKind::ReplaceCopy,
        copied("/h/a", "a"),
        copied("/h/a", "b"),
        ActionStatus::Running,
        Some("/h/.copy"),
        RecordedFacts::Copy {
            old_effect: Some(known_copy("/h/a", "a")),
            target_path: path("/h/a"),
        },
    );
    let mut world = World::holding(vec![copied("/h/a", "a")]);
    world.temporaries = vec![missing("/h/.copy")];
    assert!(!world.recover(vec![entry("a1", replace)]).unwrap());
    assert_eq!(world.log, ["clean", "a1 Failed", "close"]);
}

#[test]
fn recovery_keeps_a_partial_copy_relocation_uncertain_with_old_known() {
    let relocate = || {
        recorded(
            ActionKind::RelocateCopy,
            copied("/h/old", "a"),
            copied("/h/a", "a"),
            ActionStatus::Running,
            None,
            RecordedFacts::Copy {
                old_effect: Some(known_copy("/h/old", "a")),
                target_path: path("/h/a"),
            },
        )
    };
    let mut world = World::holding(vec![copied("/h/old", "a"), copied("/h/a", "a")]);
    assert!(world.recover(vec![entry("a1", relocate())]).unwrap());
    assert_eq!(world.log, ["a1 Uncertain"]);
    let mut world = World::holding(vec![missing("/h/old"), copied("/h/a", "a")]);
    assert!(!world.recover(vec![entry("a1", relocate())]).unwrap());
    assert_eq!(world.log, ["a1 commit", "close"]);
    let mut world = World::holding(vec![copied("/h/old", "a"), missing("/h/a")]);
    assert!(!world.recover(vec![entry("a1", relocate())]).unwrap());
    assert_eq!(world.log, ["a1 Failed", "close"]);
}

#[test]
fn recovery_classifies_link_to_copy_handoff_aftermath_from_recorded_effects() {
    let handoff = || {
        recorded(
            ActionKind::ReplaceEffect,
            link("/h/a", "/s/a"),
            copied("/h/a", "a"),
            ActionStatus::Running,
            None,
            RecordedFacts::Copy {
                old_effect: Some(known_link("/h/a", "/s/a")),
                target_path: path("/h/a"),
            },
        )
    };
    for (holding, expected) in [
        (copied("/h/a", "a"), "a1 commit"),
        (link("/h/a", "/s/a"), "a1 Failed"),
        (missing("/h/a"), "a1 Uncertain"),
    ] {
        let mut world = World::holding(vec![holding]);
        world.recover(vec![entry("a1", handoff())]).unwrap();
        assert_eq!(world.log[0], expected);
    }
}

#[test]
fn recovery_classifies_copy_to_link_handoff_aftermath_from_recorded_effects() {
    let handoff = || {
        recorded(
            ActionKind::ReplaceEffect,
            copied("/h/a", "a"),
            link("/h/a", "/s/a"),
            ActionStatus::Running,
            None,
            RecordedFacts::Plain,
        )
    };
    for (holding, expected) in [
        (link("/h/a", "/s/a"), "a1 commit"),
        (copied("/h/a", "a"), "a1 Failed"),
        (missing("/h/a"), "a1 Uncertain"),
    ] {
        let mut world = World::holding(vec![holding]);
        world.recover(vec![entry("a1", handoff())]).unwrap();
        assert_eq!(world.log[0], expected);
    }
}

#[test]
fn finished_actions_are_passed_over_and_the_rest_is_visited_in_order() {
    let mut world = World::holding(vec![missing("/h/a")]);
    assert!(!world
        .recover(vec![
            entry("a1", create(ActionStatus::Succeeded)),
            entry("a2", create(ActionStatus::Running)),
            entry("a3", create(ActionStatus::Pending)),
        ])
        .unwrap());
    assert_eq!(world.log, ["a2 Failed", "a3 Skipped", "close"]);
}

#[test]
fn without_an_operation_there_is_nothing_to_recover() {
    let session = reconcile_active_operation(None);
    assert_eq!(session.request(), RecoveryRequest::Finished);
    let end = reconcile_active_operation_with_action(session).unwrap();
    assert_eq!(end.outcome, Ok(false));
    assert!(end.affected.is_none());
}

#[test]
fn an_open_record_names_its_first_uncertain_action() {
    let mut session = reconcile_active_operation(Some(vec![
        entry("a1", create(ActionStatus::Succeeded)),
        entry("a2", create(ActionStatus::Uncertain)),
    ]));
    let mut world = World::holding(vec![]);
    while session.request() != RecoveryRequest::Finished {
        let reply = world.answer(session.request());
        session = reconcile_active_operation_with_action_and_cleanup(session, reply);
    }
    let end = reconcile_active_operation_with_action(session).unwrap();
    assert_eq!(end.outcome, Ok(true));
    assert_eq!(end.affected.unwrap().action_id.unwrap().as_str(), "a2");
}

#[test]
fn a_decision_asks_one_question_at_a_time() {
    assert_eq!(
        recovery_decision(&replace(), &vec![]),
        RecoveryStep::Inspect {
            condition: missing("/h/.temporary")
        }
    );
    assert_eq!(
        recovery_decision(&replace(), &vec![true]),
        RecoveryStep::Inspect {
            condition: link("/h/a", "/s/new")
        }
    );
    assert_eq!(
        recovery_decision(&replace(), &vec![true, true]),
        RecoveryStep::Decided {
            decision: RecoveryDecision::Succeeded
        }
    );
    assert_eq!(
        recovery_decision(&replace(), &vec![true, false, true]),
        RecoveryStep::Decided {
            decision: RecoveryDecision::Failed
        }
    );
    assert_eq!(
        recovery_decision(&replace(), &vec![false, true, true]),
        RecoveryStep::Decided {
            decision: RecoveryDecision::Uncertain
        }
    );
}

#[test]
fn a_missing_entry_is_looked_for_as_a_link_to_itself() {
    let TargetInspection::Link {
        target_path,
        expected,
    } = inspection_for(&missing("/h/a"))
    else {
        panic!("a link is looked for");
    };
    assert_eq!(expected.as_path(), &target_path);
    let seen = |observation| {
        ActualResource::FileLink(ActualFileLink {
            target_path: path("/h/a"),
            observation,
        })
    };
    assert!(condition_holds(
        &missing("/h/a"),
        &seen(TargetObservation::Missing)
    ));
    assert!(!condition_holds(
        &link("/h/a", "/s/a"),
        &seen(TargetObservation::Missing)
    ));
    assert!(matches!(
        inspection_for(&copied("/h/a", "a")),
        TargetInspection::Copy { .. }
    ));
}

#[test]
fn a_relocation_without_its_facts_is_refused() {
    assert_eq!(
        RecordedAction::from_persisted(
            ActionKind::RelocateLink,
            id("base/git"),
            path("/h/a"),
            missing("/h/a"),
            link("/h/a", "/s/a"),
            ActionStatus::Pending,
            None,
            RecordedFacts::Plain,
        )
        .unwrap_err(),
        RecordedActionError::MissingRelocationFacts
    );
}
