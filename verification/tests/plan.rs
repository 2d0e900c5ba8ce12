use loadout::domain::actual::TargetObservation;
use loadout::domain::desired::ResolvedResource;
use loadout::domain::diagnostic::Diagnostic;
use loadout::domain::file_copy::{ContentFingerprint, ResolvedFileCopy};
use loadout::domain::file_link::ResolvedFileLink;
use loadout::domain::ids::FullyQualifiedResourceId;
use loadout::domain::known::{KnownFileCopy, KnownFileLink, KnownResource};
use loadout::domain::paths::{Platform, ResolvedPath};
use loadout::domain::plan::{
    ActionKind, ActionReason, KnownStateUpdate, Plan, PlanError, PlannedAction, PlannedActionError,
    PlannedEffectHandoff, PlannedFileCopyAction, PlannedResourceAction, ResourceKnownStateUpdate,
    TargetCondition,
};

fn id(text: &str) -> FullyQualifiedResourceId {
    FullyQualifiedResourceId::new(text.to_string())
}

fn path(name: &str) -> ResolvedPath {
    ResolvedPath::new(&format!("/tmp/loadout-domain-plan/{name}"), Platform::Unix).unwrap()
}

fn desired(identity: &str, source: &str, target: &str) -> ResolvedFileLink {
    ResolvedFileLink::new(id(identity), path(source), path(target)).unwrap()
}

fn known(identity: &str, source: &str, target: &str) -> KnownFileLink {
    KnownFileLink::from_resolved(&desired(identity, source, target))
}

fn copy(identity: &str, source: &str, target: &str) -> ResolvedFileCopy {
    ResolvedFileCopy::new(
        id(identity),
        path(source),
        path(target),
        ContentFingerprint::parse(
            "sha256:aaaaaaaaaaaaaaaaaaaaaaaaaaaaaaaaaaaaaaaaaaaaaaaaaaaaaaaaaaaaaaaa".to_string(),
        )
        .unwrap(),
    )
    .unwrap()
}

#[test]
fn replace_action_carries_exact_preconditions_postconditions_and_known_update() {
    let previous = known("base/git", "store/git/config", "home/.gitconfig");
    let desired = desired("base/git", "store/git/next", "home/.gitconfig");
    let action = PlannedAction::replace_link(desired.clone(), previous.clone()).unwrap();

    assert_eq!(action.kind(), ActionKind::ReplaceLink);
    assert_eq!(action.reason(), ActionReason::SourceChanged);
    assert_eq!(
        action.preconditions(),
        [TargetCondition::ExpectedLink {
            target_path: previous.target_path().clone(),
            link_target: previous.link_target().clone(),
        }]
    );
    assert_eq!(
        action.postconditions(),
        [TargetCondition::ExpectedLink {
            target_path: desired.target_path().clone(),
            link_target: desired.link_target().clone(),
        }]
    );
    assert_eq!(
        action.known_state_update(),
        Some(KnownStateUpdate::Upsert {
            resource: KnownFileLink::from_resolved(&desired),
        })
    );
}

#[test]
fn copy_actions_carry_exact_predicates_and_typed_known_updates() {
    let previous =
        KnownFileCopy::from_resolved(&copy("base/git", "store/git/config", "home/.gitconfig"));
    let desired = ResolvedFileCopy::new(
        previous.resource_id().clone(),
        path("store/git/next-config"),
        previous.target_path().clone(),
        ContentFingerprint::parse(format!("sha256:{}", "b".repeat(64))).unwrap(),
    )
    .unwrap();
    let replace = PlannedFileCopyAction::Replace {
        desired: desired.clone(),
        previous: previous.clone(),
    };

    assert_eq!(
        replace.preconditions(),
        [TargetCondition::ExpectedCopy {
            target_path: previous.target_path().clone(),
            content_fingerprint: previous.content_fingerprint().clone(),
        }]
    );
    assert_eq!(
        replace.postconditions(),
        [TargetCondition::ExpectedCopy {
            target_path: desired.target_path().clone(),
            content_fingerprint: desired.source_content_fingerprint().clone(),
        }]
    );
    assert_eq!(
        replace.known_state_update(),
        Some(KnownStateUpdate::UpsertCopy {
            resource: KnownFileCopy::from_resolved(&desired),
        })
    );

    let relocate = PlannedFileCopyAction::Relocate {
        desired: ResolvedFileCopy::new(
            desired.resource_id().clone(),
            desired.source_path().clone(),
            path("home/.config/git/config"),
            desired.source_content_fingerprint().clone(),
        )
        .unwrap(),
        previous: previous.clone(),
    };
    assert!(matches!(
        relocate.preconditions().as_slice(),
        [
            TargetCondition::ExpectedCopy { .. },
            TargetCondition::Missing { .. }
        ]
    ));
    assert!(matches!(
        PlannedFileCopyAction::Remove { previous }
            .postconditions()
            .as_slice(),
        [TargetCondition::Missing { .. }]
    ));
}

#[test]
fn resource_action_exposes_handoff_predicates_and_final_known_effect() {
    let old =
        KnownFileCopy::from_resolved(&copy("base/git", "store/git/config", "home/.gitconfig"));
    let final_link = desired("base/git", "store/git/next-config", "home/.gitconfig");
    let action = PlannedResourceAction::ReplaceEffect(
        PlannedEffectHandoff::new(
            KnownResource::FileCopy(old.clone()),
            ResolvedResource::FileLink(final_link.clone()),
        )
        .unwrap(),
    );

    assert_eq!(
        action.preconditions(),
        [TargetCondition::ExpectedCopy {
            target_path: old.target_path().clone(),
            content_fingerprint: old.content_fingerprint().clone(),
        }]
    );
    assert_eq!(
        action.postconditions(),
        [TargetCondition::ExpectedLink {
            target_path: final_link.target_path().clone(),
            link_target: final_link.link_target().clone(),
        }]
    );
    assert_eq!(
        action.known_state_update(),
        Some(ResourceKnownStateUpdate::Upsert {
            resource: KnownResource::FileLink(KnownFileLink::from_resolved(&final_link)),
        })
    );
}

#[test]
fn action_constructors_reject_payloads_that_do_not_match_their_transition() {
    let previous = known("base/git", "store/git/config", "home/.gitconfig");

    assert_eq!(
        PlannedAction::replace_link(
            desired("base/git", "store/git/config", "home/.gitconfig"),
            previous.clone(),
        )
        .unwrap_err(),
        PlannedActionError::LinkTargetUnchanged
    );
    assert_eq!(
        PlannedAction::relocate_link(
            desired("base/git", "store/git/config", "home/.gitconfig"),
            previous.clone(),
        )
        .unwrap_err(),
        PlannedActionError::TargetPathUnchanged
    );
    assert_eq!(
        PlannedAction::replace_ownership(
            desired("base/git", "store/git/config", "home/.gitconfig"),
            previous,
        )
        .unwrap_err(),
        PlannedActionError::ResourceIdsEqual
    );
}

#[test]
fn plan_is_blocked_by_diagnostics_and_rejects_actions_with_a_shared_target() {
    let target = path("home/.gitconfig");
    let first =
        PlannedAction::create_link(desired("base/git", "store/git/config", "home/.gitconfig"));
    let second = PlannedAction::create_link(desired("base/zsh", "store/zshrc", "home/.gitconfig"));

    assert!(matches!(
        Plan::new(vec![first, second], vec![]),
        Err(PlanError::DuplicateActionTarget { .. })
    ));

    let diagnostic = Diagnostic::UnexpectedTarget {
        resource_id: id("base/git"),
        target_path: target,
        observation: TargetObservation::OtherEntry {
            kind: "RegularFile".to_string(),
        },
    };
    let blocked = Plan::new(vec![], vec![diagnostic]).unwrap();

    assert!(!blocked.is_executable());
    assert!(blocked.actions().is_empty());
    assert_eq!(blocked.diagnostics().len(), 1);
}

#[test]
fn aggregate_plan_retains_a_typed_copy_action_without_exposing_it_as_a_link_action() {
    let copy_action = PlannedFileCopyAction::Create {
        desired: copy("base/git", "store/git/config", "home/.gitconfig"),
    };
    let plan = Plan::new_with_resource_actions(
        vec![PlannedResourceAction::FileCopy(copy_action)],
        vec![],
    )
    .unwrap();

    assert!(plan.actions().is_empty());
    assert!(!plan.is_executable());
    assert!(matches!(
        plan.resource_actions().as_slice(),
        [PlannedResourceAction::FileCopy(action)] if action.kind() == ActionKind::CreateCopy
    ));
}

#[test]
fn link_plan_without_diagnostics_can_be_executed() {
    let plan = Plan::new(
        vec![
            PlannedAction::create_link(desired("base/git", "store/git", "home/.gitconfig")),
            PlannedAction::remove_link(known("base/zsh", "store/zshrc", "home/.zshrc")),
        ],
        vec![],
    )
    .unwrap();
    assert!(plan.is_executable());
    assert_eq!(plan.actions().len(), 2);
    assert_eq!(plan.resource_actions().len(), 2);
}

#[test]
fn each_link_action_names_its_kind_reason_and_targets() {
    let previous = known("base/git", "store/git/config", "home/.gitconfig");
    let create = PlannedAction::create_link(desired("base/git", "store/a", "home/a"));
    assert_eq!(create.kind(), ActionKind::CreateLink);
    assert_eq!(create.reason(), ActionReason::TargetMissing);
    assert_eq!(
        create.preconditions(),
        [TargetCondition::Missing {
            target_path: path("home/a")
        }]
    );
    let relocate =
        PlannedAction::relocate_link(desired("base/git", "store/a", "home/b"), previous.clone())
            .unwrap();
    assert_eq!(relocate.kind(), ActionKind::RelocateLink);
    assert_eq!(relocate.touched_targets().len(), 2);
    let handoff = PlannedAction::replace_ownership(
        desired("other/git", "store/git/config", "home/.gitconfig"),
        previous.clone(),
    )
    .unwrap();
    assert_eq!(handoff.kind(), ActionKind::ReplaceOwnership);
    assert_eq!(handoff.replaced_resource_id(), Some(&id("base/git")));
    let forget = PlannedAction::forget_missing(previous.clone());
    assert_eq!(forget.kind(), ActionKind::ForgetMissing);
    assert_eq!(forget.reason(), ActionReason::StaleResourceTargetMissing);
    let noop = PlannedAction::noop(
        desired("base/git", "store/git/config", "home/.gitconfig"),
        previous.clone(),
    )
    .unwrap();
    assert_eq!(noop.kind(), ActionKind::Noop);
    assert_eq!(noop.known_state_update(), None);
    assert_eq!(
        PlannedAction::noop(desired("base/git", "store/next", "home/.gitconfig"), previous)
            .unwrap_err(),
        PlannedActionError::DefinitionChanged
    );
}

#[test]
fn mismatched_records_are_refused_with_a_reason() {
    let previous = known("base/git", "store/git/config", "home/.gitconfig");
    let error = PlannedAction::replace_link(
        desired("base/zsh", "store/git/next", "home/.gitconfig"),
        previous.clone(),
    )
    .unwrap_err();
    assert_eq!(error, PlannedActionError::ResourceIdMismatch);
    assert_eq!(
        error.to_text(),
        "this action requires Desired and Known records with the same resource ID"
    );
    let error = PlannedAction::replace_link(
        desired("base/git", "store/git/next", "home/.other"),
        previous,
    )
    .unwrap_err();
    assert_eq!(error, PlannedActionError::TargetPathMismatch);
    let error = Plan::new(
        vec![
            PlannedAction::create_link(desired("base/git", "store/a", "home/x")),
            PlannedAction::create_link(desired("base/zsh", "store/b", "home/x")),
        ],
        vec![],
    )
    .unwrap_err();
    assert_eq!(
        error.to_text(),
        "plan target /tmp/loadout-domain-plan/home/x is touched by both base/git and base/zsh"
    );
}

#[test]
fn actions_on_one_drive_are_told_apart_whatever_the_case_of_its_letter() {
    let windows = |text: &str| ResolvedPath::new(text, Platform::Windows).unwrap();
    let wanted = |identity: &str, source: &str, target: &str| {
        ResolvedFileLink::new(id(identity), windows(source), windows(target)).unwrap()
    };
    let recorded = |identity: &str, source: &str, target: &str| {
        KnownFileLink::from_resolved(&wanted(identity, source, target))
    };
    let lower = || wanted("base/git", r"c:\s\git", r"c:\h\git");
    let upper = || recorded("base/git", r"C:\s\git", r"C:\h\git");
    assert!(PlannedAction::noop(lower(), upper()).is_ok());
    assert_eq!(
        PlannedAction::replace_link(lower(), upper()),
        Err(PlannedActionError::LinkTargetUnchanged)
    );
    assert_eq!(
        PlannedAction::relocate_link(lower(), upper()),
        Err(PlannedActionError::TargetPathUnchanged)
    );
    let handoff = PlannedAction::replace_ownership(
        wanted("base/renamed", r"c:\s\git", r"c:\h\git"),
        upper(),
    )
    .unwrap();
    assert_eq!(handoff.preconditions(), handoff.postconditions());
    assert!(matches!(
        Plan::new(
            vec![
                PlannedAction::create_link(lower()),
                PlannedAction::create_link(wanted("base/zsh", r"C:\s\zsh", r"C:\h\git")),
            ],
            vec![],
        ),
        Err(PlanError::DuplicateActionTarget { target_path, .. })
            if target_path.as_path() == r"C:\h\git"
    ));
}
