use loadout::application::apply::dry_run;
use loadout::application::dispatch::{ResolvedApplyInput, VerifiedSource};
use loadout::application::queries::{
    configuration, configuration_candidate, configuration_report, configuration_value,
    desired_resources, diff, known_inspections, known_resources, load_environment, plan_request,
    profile, profiles, status, status_with_inspector, validate, ConfigurationChecks,
    ConfigurationText, ConfigurationValue, DeclaredProfile, EnvironmentConfig, LoadedState,
    Observations, PlanningReply, PlanningRequest, QueryError, Resolution, ResolverError,
    StatusActual, StatusDesired, StatusRelationship, StatusResource, StatusRows, StatusUnavailable,
    StorePath,
    Validation,
};
use loadout::domain::actual::{ActualFileLink, ActualResource, TargetObservation};
use loadout::domain::desired::{ResolvedDesired, ResolvedResource};
use loadout::domain::file_link::ResolvedFileLink;
use loadout::domain::ids::{FullyQualifiedResourceId, ProfileId};
use loadout::domain::known::{KnownFileLink, KnownResource, KnownState};
use loadout::domain::paths::{Platform, ResolvedPath};
use loadout::domain::plan::Plan;
use loadout::state::operation::{OperationId, OperationRecord};
use loadout::state::repository::{CommitFailureEffect, StateRepositoryError};

fn id(text: &str) -> FullyQualifiedResourceId {
    FullyQualifiedResourceId::new(text.to_string())
}

fn profile_id(text: &str) -> ProfileId {
    ProfileId::new(text.to_string())
}

fn path(text: &str) -> ResolvedPath {
    ResolvedPath::new(text, Platform::Unix).unwrap()
}

fn link(identity: &str, source: &str) -> ResolvedFileLink {
    ResolvedFileLink::new(
        id(identity),
        path(&format!("/s/{source}")),
        path(&format!("/h/{identity}")),
    )
    .unwrap()
}

fn desired(list: Vec<ResolvedFileLink>) -> Resolution<ResolvedDesired> {
    Resolution::Resolved(
        ResolvedDesired::new(
            profile_id("base"),
            list.into_iter().map(ResolvedResource::FileLink).collect(),
        )
        .unwrap(),
    )
}

fn recorded(list: Vec<ResolvedFileLink>, operation: bool) -> LoadedState {
    LoadedState {
        known: KnownState::new(
            list.iter()
                .map(|link| KnownResource::FileLink(KnownFileLink::from_resolved(link)))
                .collect(),
        )
        .unwrap(),
        active_operation: if operation {
            Some(OperationRecord {
                id: OperationId::new("operation".to_string()),
                actions: vec![],
            })
        } else {
            None
        },
    }
}

fn seen(identity: &str, observation: TargetObservation) -> Result<ActualResource, String> {
    Ok(ActualResource::FileLink(ActualFileLink {
        target_path: path(&format!("/h/{identity}")),
        observation,
    }))
}

fn unreadable() -> StateRepositoryError {
    StateRepositoryError::Commit {
        effect: CommitFailureEffect::PreviousStateRetained,
        message: "unreadable".to_string(),
    }
}

#[test]
fn status_classifies_matching_changed_and_known_only_definitions() {
    let draft = status(
        Ok(recorded(
            vec![
                link("base/changed", "old"),
                link("base/known", "k"),
                link("base/same", "s"),
            ],
            false,
        )),
        desired(vec![
            link("base/changed", "new"),
            link("base/fresh", "f"),
            link("base/same", "s"),
        ]),
    )
    .unwrap();
    let StatusRows::Available { root_profile, rows } = &draft.desired else {
        panic!("desired is there");
    };
    assert_eq!(root_profile.as_str(), "base");
    assert!(!rows[1].inspection().unwrap().recorded);
    assert!(rows[2].inspection().unwrap().recorded);
    let report = status_with_inspector(
        draft,
        Observations::Looks(vec![
            seen("base/changed", TargetObservation::Missing),
            seen("base/fresh", TargetObservation::Missing),
            seen("base/known", TargetObservation::Missing),
            seen("base/same", TargetObservation::Missing),
        ]),
    );
    let StatusDesired::Available { resources, .. } = &report.desired else {
        panic!("desired is there");
    };
    let found: Vec<(&str, StatusRelationship)> = resources
        .iter()
        .map(|resource| (resource.resource_id.as_str(), resource.relationship()))
        .collect();
    assert_eq!(
        found,
        [
            ("base/changed", StatusRelationship::DefinitionChanged),
            ("base/fresh", StatusRelationship::DesiredOnly),
            ("base/known", StatusRelationship::KnownOnly),
            ("base/same", StatusRelationship::DefinitionsMatch),
        ]
    );
    assert!(!report.has_unavailable_observation);
}

#[test]
fn definitions_on_one_drive_match_whatever_the_case_of_its_letter() {
    let windows = |text: &str| ResolvedPath::new(text, Platform::Windows).unwrap();
    let resource = |source: &str| StatusResource {
        resource_id: id("base/git"),
        desired: Some(ResolvedResource::FileLink(
            ResolvedFileLink::new(id("base/git"), windows(source), windows(r"c:\h\git")).unwrap(),
        )),
        known: Some(KnownResource::FileLink(KnownFileLink::from_resolved(
            &ResolvedFileLink::new(
                id("base/git"),
                windows(r"C:\s\git"),
                windows(r"C:\h\git"),
            )
            .unwrap(),
        ))),
        actual: StatusActual::Unavailable(StatusUnavailable::InspectorInitialization),
    };
    assert_eq!(
        resource(r"c:\s\git").relationship(),
        StatusRelationship::DefinitionsMatch
    );
    assert_eq!(
        resource(r"c:\s\Git").relationship(),
        StatusRelationship::DefinitionChanged
    );
}

#[test]
fn status_retains_active_operation_and_skips_target_observation_when_desired_is_unavailable() {
    let draft = status(
        Ok(recorded(vec![link("base/a", "a")], true)),
        Resolution::Unresolved(ResolverError::Other {
            message: "unknown store".to_string(),
        }),
    )
    .unwrap();
    let report = status_with_inspector(draft, Observations::Looks(vec![]));
    assert!(report.active_operation.is_some());
    assert!(matches!(
        report.desired,
        StatusDesired::Unavailable(QueryError::Resolution(_))
    ));
    assert!(!report.has_unavailable_observation);
}

#[test]
fn status_retains_desired_known_and_active_operation_when_inspector_initialization_fails() {
    let draft = status(
        Ok(recorded(vec![link("base/a", "a")], true)),
        desired(vec![link("base/a", "a"), link("base/b", "b")]),
    )
    .unwrap();
    let report = status_with_inspector(
        draft,
        Observations::NoInspector {
            message: "no home".to_string(),
        },
    );
    assert!(report.active_operation.is_some());
    assert!(report.has_unavailable_observation);
    assert_eq!(
        report.inspection_initialization_error.as_deref(),
        Some("no home")
    );
    let StatusDesired::Available { resources, .. } = &report.desired else {
        panic!("desired is there");
    };
    assert_eq!(resources.len(), 2);
    assert!(resources[0].known.is_some());
    assert!(resources.iter().all(|resource| matches!(
        resource.actual,
        StatusActual::Unavailable(StatusUnavailable::InspectorInitialization)
    )));
}

#[test]
fn status_retains_completed_rows_when_an_observation_is_unavailable() {
    let draft = status(
        Ok(recorded(vec![], false)),
        desired(vec![link("base/a", "a"), link("base/b", "b")]),
    )
    .unwrap();
    let report = status_with_inspector(
        draft,
        Observations::Looks(vec![
            seen("base/a", TargetObservation::Missing),
            Err("denied".to_string()),
        ]),
    );
    let StatusDesired::Available { resources, .. } = &report.desired else {
        panic!("desired is there");
    };
    assert!(matches!(resources[0].actual, StatusActual::Available(_)));
    assert!(matches!(
        &resources[1].actual,
        StatusActual::Unavailable(StatusUnavailable::Observation { message }) if message == "denied"
    ));
    assert!(report.has_unavailable_observation);
}

#[test]
fn invalid_state_prevents_status_target_inspection() {
    assert!(matches!(
        status(Err(unreadable()), desired(vec![])),
        Err(QueryError::State(_))
    ));
}

#[test]
fn diff_pairs_each_recorded_resource_with_what_was_seen() {
    let report = diff(
        Ok(recorded(vec![link("base/a", "a"), link("base/b", "b")], true)),
        Observations::Looks(vec![
            seen("base/a", TargetObservation::Missing),
            seen("base/b", TargetObservation::Missing),
        ]),
    )
    .unwrap();
    assert_eq!(report.resources.len(), 2);
    assert_eq!(report.resources[1].resource_id.as_str(), "base/b");
    assert!(report.active_operation.is_some());
    assert!(matches!(
        diff(
            Ok(recorded(vec![link("base/a", "a")], false)),
            Observations::NoInspector {
                message: "no home".to_string()
            }
        ),
        Err(QueryError::Inspection { .. })
    ));
    assert!(diff(Err(unreadable()), Observations::Looks(vec![])).is_err());
}

#[test]
fn diff_with_absent_state_needs_neither_home_nor_declarations() {
    let report = diff(
        Ok(recorded(vec![], false)),
        Observations::NoInspector {
            message: "no home".to_string(),
        },
    )
    .unwrap();
    assert!(report.resources.is_empty());
}

fn checks() -> ConfigurationChecks {
    ConfigurationChecks {
        stores: Ok(()),
        roots: Ok(()),
        default_profile: Ok(()),
    }
}

fn wrong(message: &str) -> ResolverError {
    ResolverError::Other {
        message: message.to_string(),
    }
}

fn environment() -> EnvironmentConfig {
    EnvironmentConfig {
        default_profile: Some("base".to_string()),
    }
}

#[test]
fn a_configuration_is_checked_in_order() {
    assert_eq!(
        configuration(
            path("/c"),
            ConfigurationText::Parsed(environment()),
            checks()
        ),
        Ok(environment())
    );
    assert!(matches!(
        load_environment(
            path("/c"),
            ConfigurationText::Unreadable {
                message: "denied".to_string()
            }
        ),
        Err(QueryError::ConfigurationRead { .. })
    ));
    assert!(matches!(
        configuration(
            path("/c"),
            ConfigurationText::Invalid {
                message: "bad".to_string()
            },
            checks()
        ),
        Err(QueryError::Configuration { .. })
    ));
    let both = ConfigurationChecks {
        stores: Err(wrong("stores")),
        roots: Err(wrong("roots")),
        default_profile: Ok(()),
    };
    assert_eq!(
        configuration_candidate(Ok(environment()), both),
        Err(QueryError::Resolution(wrong("stores")))
    );
    assert!(matches!(
        configuration_candidate(Err("bad".to_string()), checks()),
        Err(QueryError::Configuration { .. })
    ));
}

fn stores() -> Vec<StorePath> {
    vec![StorePath {
        store_id: "files".to_string(),
        path: path("/s"),
    }]
}

#[test]
fn a_configuration_field_has_a_value_or_is_unknown() {
    let report = configuration_report(path("/c"), Ok(environment()), Ok(stores())).unwrap();
    assert_eq!(report.default_profile.as_deref(), Some("base"));
    assert_eq!(report.stores.len(), 1);
    let value = |field: &str| {
        configuration_value(path("/c"), Ok(environment()), Ok(stores()), field)
            .map(|report| report.value)
    };
    assert_eq!(
        value("default_profile"),
        Ok(ConfigurationValue::DefaultProfile(Some("base".to_string())))
    );
    assert_eq!(
        value("stores.files.properties.path"),
        Ok(ConfigurationValue::StorePath(path("/s")))
    );
    for field in [
        "stores.other.properties.path",
        "stores.files",
        "schema_version",
    ] {
        assert_eq!(
            value(field),
            Err(QueryError::ConfigField(field.to_string()))
        );
    }
}

fn declared(name: &str) -> DeclaredProfile {
    DeclaredProfile {
        id: profile_id(name),
        includes: vec![],
        resources: vec![],
    }
}

#[test]
fn profiles_are_listed_and_found_by_their_identity() {
    let all = || Resolution::Resolved(vec![declared("base"), declared("work")]);
    assert_eq!(profiles(all()).unwrap().profiles.len(), 2);
    let found = profile(all(), &profile_id("work")).unwrap().unwrap();
    assert_eq!(found.profile.id.as_str(), "work");
    assert!(profile(all(), &profile_id("none")).unwrap().is_none());
    assert!(profiles(Resolution::Unresolved(wrong("x"))).is_err());
}

#[test]
fn known_query_has_no_declaration_or_target_dependency() {
    let report = known_resources(Ok(recorded(vec![link("base/a", "a")], false))).unwrap();
    assert_eq!(report.resources.len(), 1);
    assert!(known_resources(Err(unreadable())).is_err());
    let report = desired_resources(desired(vec![link("base/a", "a")])).unwrap();
    assert_eq!(report.root_profile.as_str(), "base");
    assert_eq!(report.resources.len(), 1);
}

fn apply_input(list: Vec<ResolvedFileLink>) -> ResolvedApplyInput {
    let verified_sources = list
        .iter()
        .map(|link| VerifiedSource {
            resource_id: link.resource_id().clone(),
            source_path: link.source_path().clone(),
        })
        .collect();
    let Resolution::Resolved(desired) = desired(list) else {
        unreachable!();
    };
    ResolvedApplyInput {
        desired,
        verified_sources,
    }
}

#[test]
fn a_single_profile_is_valid_or_an_error() {
    let report = validate(Validation::Root(Resolution::Resolved(apply_input(vec![
        link("base/a", "a"),
    ]))))
    .unwrap();
    assert_eq!(report.profiles.len(), 1);
    assert_eq!(report.profiles[0].profile.as_str(), "base");
    assert!(report.profiles[0].result.is_ok());
    assert!(matches!(
        validate(Validation::Root(Resolution::Unresolved(wrong("x")))),
        Err(QueryError::Resolution(error)) if error == wrong("x")
    ));
}

#[test]
fn validate_all_reports_each_root_and_retains_independent_resolution_errors() {
    let report = validate(Validation::All {
        roots: Resolution::Resolved(vec![
            profile_id("base"),
            profile_id("other"),
            profile_id("work"),
        ]),
        results: vec![Ok(()), Err(wrong("x")), Ok(())],
    })
    .unwrap();
    let rows: Vec<(&str, bool)> = report
        .profiles
        .iter()
        .map(|row| (row.profile.as_str(), row.result.is_ok()))
        .collect();
    assert_eq!(rows, [("base", true), ("other", false), ("work", true)]);
    assert_eq!(report.profiles[1].result, Err(wrong("x")));
    assert!(matches!(
        validate(Validation::All {
            roots: Resolution::Unresolved(wrong("roots")),
            results: vec![],
        }),
        Err(QueryError::Resolution(error)) if error == wrong("roots")
    ));
}

#[test]
fn each_recorded_resource_is_looked_at_as_ours() {
    let state = recorded(vec![link("base/b", "b"), link("base/a", "a")], false);
    let inspections = known_inspections(&state.known);
    let targets: Vec<&ResolvedPath> = inspections
        .iter()
        .map(|inspection| &inspection.target_path)
        .collect();
    assert_eq!(targets, [&path("/h/base/a"), &path("/h/base/b")]);
    assert!(inspections.iter().all(|inspection| inspection.recorded));
    assert!(known_inspections(&recorded(vec![], false).known).is_empty());
}

#[test]
fn a_plan_reads_declarations_then_state_then_targets() {
    let session = plan_request();
    assert_eq!(session.request(), PlanningRequest::Resolve);
    assert!(session.input().is_none());
    let session = session.answer(PlanningReply::Resolved {
        resolution: Resolution::Resolved(apply_input(vec![link("base/a", "a")])),
    });
    assert_eq!(session.request(), PlanningRequest::Load);
    assert_eq!(session.input().unwrap().verified_sources.len(), 1);
    assert!(session.state().is_none());
    let session = session.answer(PlanningReply::Loaded {
        outcome: Ok(recorded(vec![link("base/b", "b")], false)),
    });
    assert_eq!(session.request(), PlanningRequest::Plan);
    assert_eq!(session.state().unwrap().known.resources().len(), 1);
    let session = session.answer(PlanningReply::Planned {
        outcome: Ok(Plan::new(vec![], vec![]).unwrap()),
    });
    assert_eq!(session.request(), PlanningRequest::Finished);
    let report = session.finish().unwrap().unwrap();
    assert_eq!(report.profile.as_str(), "base");
    assert!(report.plan.actions().is_empty());
}

#[test]
fn the_first_failure_of_a_plan_is_its_error() {
    let unresolved = plan_request().answer(PlanningReply::Resolved {
        resolution: Resolution::Unresolved(wrong("x")),
    });
    assert_eq!(unresolved.request(), PlanningRequest::Finished);
    let unresolved = unresolved.answer(PlanningReply::Loaded {
        outcome: Err(unreadable()),
    });
    assert!(matches!(
        unresolved.finish(),
        Some(Err(QueryError::Resolution(_)))
    ));
    let resolved = || {
        plan_request().answer(PlanningReply::Resolved {
            resolution: Resolution::Resolved(apply_input(vec![])),
        })
    };
    let unread = resolved().answer(PlanningReply::Loaded {
        outcome: Err(unreadable()),
    });
    assert_eq!(unread.request(), PlanningRequest::Finished);
    assert!(matches!(unread.finish(), Some(Err(QueryError::State(_)))));
    let unobserved = resolved()
        .answer(PlanningReply::Loaded {
            outcome: Ok(recorded(vec![], false)),
        })
        .answer(PlanningReply::Planned {
            outcome: Err("no home".to_string()),
        });
    assert!(matches!(
        unobserved.finish(),
        Some(Err(QueryError::Inspection { message })) if message == "no home"
    ));
    assert!(resolved().finish().is_none());
}

#[test]
fn a_dry_run_asks_what_a_plan_asks() {
    let session = dry_run();
    assert_eq!(session.request(), PlanningRequest::Resolve);
    let session = session.answer(PlanningReply::Resolved {
        resolution: Resolution::Unconfigured(QueryError::ConfigField("x".to_string())),
    });
    assert!(matches!(
        session.finish(),
        Some(Err(QueryError::ConfigField(field))) if field == "x"
    ));
}
