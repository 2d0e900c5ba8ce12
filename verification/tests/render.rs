use loadout::application::apply::{ApplyFailure, ApplyFailureCause, ApplyReport, ApplyStage};
use loadout::application::errors::ApplyError;
use loadout::application::queries::{
    ConfigurationReport, ConfigurationValue, ConfigurationValueReport, DeclaredProfile,
    DeclaredResource, DesiredResourcesReport, DiffReport, DiffResource, KnownResourcesReport,
    PlanReport, ProfileListReport, ProfileShowReport, QueryError, ResolverError, StatusActual,
    StatusDesired, StatusReport, StatusResource, StatusUnavailable, StorePath, ValidatedProfile,
    ValidationReport,
};
use loadout::application::reconcile::ApplyAction;
use loadout::cli::apply::{
    accepts, confirmation, failure_exit_code, failure_output, present, run, run_dry, Confirmation,
};
use loadout::cli::render::{
    config_get, config_list, config_path, desired_resource, desired_resources, diff, known_resource,
    known_resources, plan, profile_list, profile_show, query_error, resolver_exit_code, status,
    validation,
};
use loadout::domain::actual::{ActualFileLink, ActualResource, TargetObservation};
use loadout::domain::desired::ResolvedResource;
use loadout::domain::diagnostic::Diagnostic;
use loadout::domain::file_link::{LinkTarget, ResolvedFileLink};
use loadout::domain::ids::{FullyQualifiedResourceId, ProfileId};
use loadout::domain::known::{KnownFileLink, KnownResource};
use loadout::domain::paths::{Platform, ResolvedPath};
use loadout::domain::plan::{ActionKind, Plan, PlannedAction, TargetCondition};
use loadout::state::operation::{
    ActionId, ActionStatus, OperationId, OperationRecord, RecordedAction, RecordedEntry,
    RecordedFacts,
};
use loadout::state::repository::{CommitFailureEffect, OperationOutcome, StateRepositoryError};

fn id(text: &str) -> FullyQualifiedResourceId {
    FullyQualifiedResourceId::new(text.to_string())
}

fn profile(text: &str) -> ProfileId {
    ProfileId::new(text.to_string())
}

fn path(text: &str) -> ResolvedPath {
    ResolvedPath::new(text, Platform::Unix).unwrap()
}

fn link(identity: &str, source: &str, target: &str) -> ResolvedFileLink {
    ResolvedFileLink::new(id(identity), path(source), path(target)).unwrap()
}

#[test]
fn status_renders_a_desired_only_unavailable_observation_without_claiming_known_drift() {
    let resource = link(
        "base/item",
        "/tmp/loadout-render-source",
        "/tmp/loadout-render-target",
    );
    let report = StatusReport {
        active_operation: None,
        desired: StatusDesired::Available {
            root_profile: profile("base"),
            resources: vec![StatusResource {
                resource_id: resource.resource_id().clone(),
                desired: Some(ResolvedResource::FileLink(resource)),
                known: None,
                actual: StatusActual::Unavailable(StatusUnavailable::InspectorInitialization),
            }],
        },
        has_unavailable_observation: true,
        inspection_initialization_error: None,
    };

    let output = status(&report);
    assert!(output.contains("desired-to-actual: desired_target_observation: unavailable"));
    assert!(!output.contains("known-to-actual: drifted"));
}

#[test]
fn status_renders_definition_changed_and_expected_known_observation_separately() {
    let resource_id = id("base/item");
    let target_path = path("/tmp/loadout-render-target");
    let desired = link(
        "base/item",
        "/tmp/loadout-render-desired-source",
        "/tmp/loadout-render-target",
    );
    let known_definition = link(
        "base/item",
        "/tmp/loadout-render-known-source",
        "/tmp/loadout-render-target",
    );
    let known = KnownFileLink::from_resolved(&known_definition);
    let actual = ActualFileLink {
        target_path,
        observation: TargetObservation::ExpectedLink {
            link_target: known.link_target().clone(),
        },
    };
    let report = StatusReport {
        active_operation: None,
        desired: StatusDesired::Available {
            root_profile: profile("base"),
            resources: vec![StatusResource {
                resource_id,
                desired: Some(ResolvedResource::FileLink(desired)),
                known: Some(KnownResource::FileLink(known)),
                actual: StatusActual::Available(ActualResource::FileLink(actual)),
            }],
        },
        has_unavailable_observation: false,
        inspection_initialization_error: None,
    };

    let output = status(&report);
    assert!(output.contains("desired-to-known: definition_changed"));
    assert!(output.contains("known-to-actual: expected_link:"));
    assert!(output.contains("expected_link"));
    assert!(!output.contains("drifted"));
}

#[test]
fn commit_failure_reports_recorded_success_separately_from_confirmed_commits() {
    let target = path("/tmp/loadout-render-only-target");
    let resource = id("base/item");
    let action_id = ActionId::new("a2".to_string());
    let operation = || OperationRecord {
        id: OperationId::new("operation-render-only".to_string()),
        actions: vec![RecordedEntry {
            id: action_id.clone(),
            action: RecordedAction::from_persisted(
                ActionKind::CreateLink,
                resource.clone(),
                target.clone(),
                TargetCondition::Missing {
                    target_path: target.clone(),
                },
                TargetCondition::ExpectedLink {
                    target_path: target.clone(),
                    link_target: LinkTarget::new(path("/tmp/loadout-render-only-source")),
                },
                ActionStatus::Succeeded,
                None,
                RecordedFacts::Plain,
            )
            .unwrap(),
        }],
    };
    for (effect, needle) in [
        (
            CommitFailureEffect::PreviousStateRetained,
            "previous state retained",
        ),
        (
            CommitFailureEffect::ReplacedDurabilityUnconfirmed,
            "durability unconfirmed",
        ),
    ] {
        for closed in [false, true] {
            let failure = ApplyFailure {
                stage: if closed {
                    ApplyStage::Closure
                } else {
                    ApplyStage::Execution
                },
                cause: ApplyFailureCause::Lifecycle(ApplyError::State(
                    StateRepositoryError::Commit {
                        effect,
                        message: "injected".to_string(),
                    },
                )),
                affected_action: Some(ApplyAction {
                    action_id: Some(action_id.clone()),
                    resource_id: resource.clone(),
                    kind: ActionKind::CreateLink,
                }),
                operation: Some(if closed {
                    OperationOutcome::Closed(operation())
                } else {
                    OperationOutcome::Retained(operation())
                }),
                commit_failure: Some(effect),
                committed: vec![id("base/earlier")],
                plan: None,
            };
            assert_eq!(failure_exit_code(&failure), 1);
            let text = failure_output(&failure);
            for expected in [
                needle,
                "recorded status Succeeded",
                "committed actions: 1",
                "base/earlier",
                "base/item",
                "a2",
                target.as_path(),
                if closed {
                    "operation closed"
                } else {
                    "operation retained"
                },
            ] {
                assert!(text.contains(expected), "{text}");
            }
        }
    }
}

fn unread() -> ResolverError {
    ResolverError::ReadProfile {
        message: "unreadable".to_string(),
    }
}

fn wrong() -> ResolverError {
    ResolverError::Other {
        message: "unknown store".to_string(),
    }
}

#[test]
fn resolver_errors_exit_with_one_only_when_something_could_not_be_read() {
    assert_eq!(resolver_exit_code(&unread()), 1);
    assert_eq!(
        resolver_exit_code(&ResolverError::HomeDirectoryIo {
            message: String::new()
        }),
        1
    );
    for (not_found, code) in [(false, 1), (true, 2)] {
        assert_eq!(
            resolver_exit_code(&ResolverError::ProfileDiscoveryIo {
                not_found,
                message: String::new()
            }),
            code
        );
    }
    assert_eq!(resolver_exit_code(&wrong()), 2);
}

#[test]
fn validation_tells_the_valid_from_the_invalid() {
    let rendered = validation(&ValidationReport {
        profiles: vec![
            ValidatedProfile {
                profile: profile("base"),
                result: Ok(()),
            },
            ValidatedProfile {
                profile: profile("work"),
                result: Err(wrong()),
            },
        ],
    });
    assert!(rendered.out.contains("base"));
    assert!(!rendered.out.contains("work"));
    assert!(rendered.err.contains("work"));
    assert!(rendered.err.contains("unknown store"));
    assert_eq!(rendered.code, 2);
    let rendered = validation(&ValidationReport {
        profiles: vec![ValidatedProfile {
            profile: profile("work"),
            result: Err(unread()),
        }],
    });
    assert_eq!(rendered.code, 1);
}

#[test]
fn a_difference_names_the_resource_and_what_stands_there() {
    let rendered = diff(&DiffReport {
        resources: vec![DiffResource {
            resource_id: id("base/git"),
            actual: ActualResource::FileLink(ActualFileLink {
                target_path: path("/h/a"),
                observation: TargetObservation::Missing,
            }),
        }],
        active_operation: None,
    });
    assert!(rendered.out.contains("base/git"));
    assert!(rendered.out.contains("/h/a"));
    assert!(rendered.out.contains("missing"));
    assert_eq!(rendered.code, 0);
}

#[test]
fn declarations_are_listed_as_they_are_written() {
    let declared = || DeclaredProfile {
        id: profile("base"),
        includes: vec![profile("shared")],
        resources: vec![DeclaredResource {
            resource_id: "git".to_string(),
            store_id: "files".to_string(),
            source_path: "git/config".to_string(),
            target_path: "~/.gitconfig".to_string(),
        }],
    };
    let list = profile_list(&ProfileListReport {
        profiles: vec![declared()],
    });
    assert!(list.contains("base"));
    let shown = profile_show(&ProfileShowReport {
        profile: declared(),
    });
    for text in ["base", "shared", "git", "files", "git/config", "~/.gitconfig"] {
        assert!(shown.contains(text), "{shown}");
    }
}

#[test]
fn resources_are_listed_with_where_they_come_from_and_lead() {
    let resolved = || ResolvedResource::FileLink(link("base/git", "/s/a", "/h/a"));
    let known = || {
        KnownResource::FileLink(KnownFileLink::from_resolved(&link("base/git", "/s/a", "/h/a")))
    };
    let all = desired_resources(&DesiredResourcesReport {
        root_profile: profile("base"),
        resources: vec![resolved()],
    });
    let one = desired_resource(&profile("base"), &resolved());
    let recorded = known_resources(&KnownResourcesReport {
        resources: vec![known()],
    });
    let single = known_resource(&known());
    for text in [all, one, recorded, single] {
        for part in ["base/git", "/s/a", "/h/a"] {
            assert!(text.contains(part), "{text}");
        }
    }
}

#[test]
fn configuration_output_is_exact() {
    let rendered = config_path("/c/config.yaml");
    assert_eq!(rendered.out, "/c/config.yaml\n");
    assert_eq!(rendered.code, 0);
    let rendered = config_list(&ConfigurationReport {
        configuration_path: path("/c/config.yaml"),
        default_profile: None,
        stores: vec![StorePath {
            store_id: "files".to_string(),
            path: path("/s"),
        }],
    });
    assert!(rendered.out.starts_with("configuration: /c/config.yaml\n"));
    assert!(rendered.out.contains("default_profile: <unset>\n"));
    assert!(rendered.out.contains("stores.files.properties.path: /s\n"));
    let rendered = config_get(
        &ConfigurationValueReport {
            configuration_path: path("/c/config.yaml"),
            value: ConfigurationValue::StorePath(path("/s")),
        },
        "stores.files.properties.path",
    );
    assert_eq!(
        rendered.out,
        "configuration: /c/config.yaml\nstores.files.properties.path: /s\n"
    );
}

fn create_plan() -> Plan {
    Plan::new(
        vec![PlannedAction::create_link(link("base/git", "/s/a", "/h/a"))],
        vec![],
    )
    .unwrap()
}

fn blocked_plan() -> Plan {
    Plan::new(
        vec![],
        vec![Diagnostic::UnexpectedTarget {
            resource_id: id("base/git"),
            target_path: path("/h/a"),
            observation: TargetObservation::OtherEntry {
                kind: "RegularFile".to_string(),
            },
        }],
    )
    .unwrap()
}

#[test]
fn a_plan_is_shown_with_its_actions_and_its_obstacles() {
    let rendered = plan(&PlanReport {
        profile: profile("base"),
        plan: create_plan(),
    });
    assert!(rendered.out.starts_with("profile base: "));
    assert!(rendered.out.contains("base/git"));
    assert_eq!(rendered.err, "");
    assert_eq!(rendered.code, 0);
    let rendered = plan(&PlanReport {
        profile: profile("base"),
        plan: blocked_plan(),
    });
    assert!(rendered.err.contains("base/git"));
    assert_eq!(rendered.code, 2);
    assert_eq!(present(&blocked_plan()).code, 2);
    let dry = run_dry(Ok(PlanReport {
        profile: profile("base"),
        plan: create_plan(),
    }));
    assert_eq!(dry.code, 0);
    let dry = run_dry(Err(QueryError::ConfigField("x".to_string())));
    assert_eq!(dry.code, 2);
}

#[test]
fn a_confirmation_is_asked_only_where_someone_can_answer() {
    assert_eq!(confirmation(true, false), Confirmation::Granted);
    assert!(matches!(
        confirmation(false, false),
        Confirmation::Refused { .. }
    ));
    assert!(matches!(confirmation(false, true), Confirmation::Ask { .. }));
    for yes in ["y", "Y", " yes\n", "YeS\t", "\u{a0}y\r\n"] {
        assert!(accepts(yes), "{yes:?}");
    }
    for no in ["", "n", "yess", "ye", "y e s", "no\n"] {
        assert!(!accepts(no), "{no:?}");
    }
}

#[test]
fn an_apply_tells_what_it_committed() {
    let rendered = run(Ok(ApplyReport::Applied {
        plan: create_plan(),
        committed: vec![id("base/git")],
    }));
    assert_eq!(rendered.out, "apply completed: 1 committed actions\n");
    assert_eq!(rendered.code, 0);
    assert_eq!(
        run(Ok(ApplyReport::Blocked {
            plan: blocked_plan()
        }))
        .code,
        2
    );
    assert_ne!(
        run(Ok(ApplyReport::Declined {
            plan: create_plan()
        }))
        .code,
        0
    );
}

#[test]
fn a_failure_without_commits_exits_by_its_cause() {
    let failure = |stage, cause| ApplyFailure {
        stage,
        cause,
        affected_action: None,
        operation: None,
        commit_failure: None,
        committed: vec![],
        plan: None,
    };
    assert_eq!(
        failure_exit_code(&failure(
            ApplyStage::Recovery,
            ApplyFailureCause::Lifecycle(ApplyError::RecoveryRequired)
        )),
        2
    );
    assert_eq!(
        failure_exit_code(&failure(
            ApplyStage::Execution,
            ApplyFailureCause::Lifecycle(ApplyError::RecoveryRequired)
        )),
        1
    );
    assert_eq!(
        failure_exit_code(&failure(
            ApplyStage::Resolution,
            ApplyFailureCause::Input(QueryError::Resolution(wrong()))
        )),
        2
    );
    let mut late = failure(
        ApplyStage::Preflight,
        ApplyFailureCause::Lifecycle(ApplyError::RecoveryRequired),
    );
    assert_eq!(failure_exit_code(&late), 2);
    late.committed.push(id("base/earlier"));
    assert_eq!(failure_exit_code(&late), 1);
}

#[test]
fn query_errors_say_what_is_wrong() {
    assert!(query_error(&QueryError::ConfigurationRead {
        path: path("/c/config.yaml"),
        message: "denied".to_string()
    })
    .contains("/c/config.yaml"));
    assert!(query_error(&QueryError::Resolution(wrong())).contains("unknown store"));
}
