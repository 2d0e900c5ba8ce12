use loadout::application::apply::{
    apply_request, apply_request_with_hooks, ApplyFailure, ApplyFailureCause, ApplyReply,
    ApplyReport, ApplyRequest, ApplyStage,
};
use loadout::application::coordinator::{
    preflight_stale_action, require_single_create_action, require_single_relocate_action,
    require_single_replace_action, require_single_replace_ownership_action,
    require_single_stale_action, ApplyCoordinator, SingleActionApplyResult, SingleReply,
    SingleRequest, SingleSession,
};
use loadout::application::dispatch::{
    execute, preflight, ExecuteName, PreflightFailure, PreflightName, ResolvedApplyInput,
    VerifiedSource,
};
use loadout::application::errors::{
    ApplyError, CopyError, CreateLinkExecutionError, ForgetMissingExecutionError,
    RemoveLinkExecutionError, ResourceExecutionError, StaleLinkExecutionError,
};
use loadout::application::execution::{ExecutionReply, ExecutionRequest};
use loadout::application::queries::{resolve_request, QueryError, Resolution};
use loadout::application::reconcile::{RecoveryReply, RecoveryRequest};
use loadout::domain::actual::TargetObservation;
use loadout::domain::desired::{ResolvedDesired, ResolvedResource};
use loadout::domain::diagnostic::Diagnostic;
use loadout::domain::file_copy::{ContentFingerprint, ResolvedFileCopy};
use loadout::domain::file_link::{LinkTarget, ResolvedFileLink};
use loadout::domain::ids::{FullyQualifiedResourceId, ProfileId};
use loadout::domain::known::{KnownFileLink, KnownResource};
use loadout::domain::paths::{Platform, ResolvedPath};
use loadout::domain::plan::{
    ActionKind, Plan, PlannedAction, PlannedEffectHandoff, PlannedFileCopyAction,
    PlannedResourceAction, TargetCondition,
};
use loadout::state::operation::{
    can_close, ActionId, ActionStatus, OperationId, OperationRecord, RecordedAction, RecordedEntry,
    RecordedFacts,
};
use loadout::state::repository::{CommitFailureEffect, OperationOutcome, StateRepositoryError};

fn id(text: &str) -> FullyQualifiedResourceId {
    FullyQualifiedResourceId::new(text.to_string())
}

fn path(text: &str) -> ResolvedPath {
    ResolvedPath::new(text, Platform::Unix).unwrap()
}

fn desired(name: &str) -> ResolvedFileLink {
    ResolvedFileLink::new(
        id(&format!("base/{name}")),
        path(&format!("/s/{name}")),
        path(&format!("/h/{name}")),
    )
    .unwrap()
}

fn known(name: &str) -> KnownFileLink {
    KnownFileLink::from_resolved(&desired(name))
}

fn create(name: &str) -> PlannedAction {
    PlannedAction::create_link(desired(name))
}

fn noop(name: &str) -> PlannedAction {
    PlannedAction::noop(desired(name), known(name)).unwrap()
}

fn plan(actions: Vec<PlannedAction>) -> Plan {
    Plan::new(actions, vec![]).unwrap()
}

fn input(names: &[&str]) -> ResolvedApplyInput {
    ResolvedApplyInput {
        desired: ResolvedDesired::new(
            ProfileId::new("base".to_string()),
            names
                .iter()
                .map(|name| ResolvedResource::FileLink(desired(name)))
                .collect(),
        )
        .unwrap(),
        verified_sources: names
            .iter()
            .map(|name| VerifiedSource {
                resource_id: id(&format!("base/{name}")),
                source_path: path(&format!("/s/{name}")),
            })
            .collect(),
    }
}

/// One action of an operation on record.
fn entry(id: &str, name: &str, status: ActionStatus) -> RecordedEntry {
    RecordedEntry {
        id: ActionId::new(id.to_string()),
        action: record(ActionKind::CreateLink, name, status),
    }
}

fn statuses(operation: &OperationRecord) -> Vec<ActionStatus> {
    operation
        .actions
        .iter()
        .map(|entry| entry.action.status())
        .collect()
}

fn refusal(effect: CommitFailureEffect) -> StateRepositoryError {
    StateRepositoryError::Commit {
        effect,
        message: "refused".to_string(),
    }
}

fn record(kind: ActionKind, name: &str, status: ActionStatus) -> RecordedAction {
    let target = path(&format!("/h/{name}"));
    RecordedAction::from_persisted(
        kind,
        id(&format!("base/{name}")),
        target.clone(),
        TargetCondition::Missing {
            target_path: target.clone(),
        },
        TargetCondition::ExpectedLink {
            target_path: target,
            link_target: LinkTarget::new(path(&format!("/s/{name}"))),
        },
        status,
        None,
        RecordedFacts::Plain,
    )
    .unwrap()
}

/// A machine that answers what an apply asks, and notes what it was asked to do.
struct Machine {
    names: Vec<&'static str>,
    plan: Option<Plan>,
    /// The actions of the operation that an earlier run left open.
    left: Option<fn() -> Vec<RecordedEntry>>,
    unresolved: bool,
    accepted: bool,
    failing: Option<(&'static str, ResourceExecutionError)>,
    refused: Option<(&'static str, CommitFailureEffect)>,
    preflight_failure: Option<PreflightFailure>,
    state_unwritable: bool,
    /// The operation on record, with its actions.
    active: Option<Vec<RecordedEntry>>,
    /// The operation that was closed.
    closed: Option<Vec<RecordedEntry>>,
    locks: usize,
    known: usize,
    /// What was running at each execution, with the number of resources on record.
    observed: Vec<(String, usize)>,
    kinds: Vec<ActionKind>,
    log: Vec<String>,
}

impl Machine {
    fn new(names: Vec<&'static str>, plan: Plan) -> Self {
        Machine {
            names,
            plan: Some(plan),
            left: None,
            unresolved: false,
            accepted: true,
            failing: None,
            refused: None,
            preflight_failure: None,
            state_unwritable: false,
            active: None,
            closed: None,
            locks: 0,
            known: 0,
            observed: vec![],
            kinds: vec![],
            log: vec![],
        }
    }

    fn store(&mut self, what: String) -> Option<StateRepositoryError> {
        let error = match &self.refused {
            Some((name, effect)) if what == *name => Some(refusal(*effect)),
            _ => None,
        };
        self.log.push(what);
        error
    }

    /// Puts a status on record, unless the previous state was kept.
    fn set(&mut self, action_id: &ActionId, status: ActionStatus, error: &Option<StateRepositoryError>) {
        if kept(error) {
            return;
        }
        let entries = self.active.as_mut().unwrap();
        let at = entries.iter().position(|entry| entry.id == *action_id).unwrap();
        let entry = entries.remove(at);
        entries.insert(
            at,
            RecordedEntry {
                id: entry.id,
                action: entry.action.with_status(status),
            },
        );
    }

    fn close(&mut self) -> Option<StateRepositoryError> {
        let error = self.store("closed".to_string());
        if !kept(&error) {
            self.closed = self.active.take();
        }
        error
    }

    fn outcome(&mut self) -> OperationOutcome {
        let operation = |actions| OperationRecord {
            id: OperationId::new("operation".to_string()),
            actions,
        };
        match (self.active.take(), self.closed.take()) {
            (Some(actions), _) => OperationOutcome::Retained(operation(actions)),
            (None, Some(actions)) => OperationOutcome::Closed(operation(actions)),
            (None, None) => OperationOutcome::Absent,
        }
    }

    fn execution(&mut self, request: ExecutionRequest) -> ExecutionReply {
        match request {
            ExecutionRequest::MarkRunning { action_id } => {
                let error = self.store(format!("{} running", action_id.as_str()));
                self.set(&action_id, ActionStatus::Running, &error);
                ExecutionReply::Stored { error }
            }
            ExecutionRequest::Execute { action_id } => {
                self.log.push(format!("{} executed", action_id.as_str()));
                let error = match &self.failing {
                    Some((name, _)) if *name == action_id.as_str() => {
                        self.failing.take().map(|(_, error)| error)
                    }
                    _ => None,
                };
                let running: Vec<&RecordedEntry> = self
                    .active
                    .as_ref()
                    .unwrap()
                    .iter()
                    .filter(|entry| entry.action.status() == ActionStatus::Running)
                    .collect();
                assert_eq!(running.len(), 1);
                assert_eq!(running[0].id, action_id);
                let resource_id = running[0].action.resource_id().as_str().to_string();
                self.observed.push((resource_id, self.known));
                self.kinds.push(running[0].action.kind());
                ExecutionReply::Executed {
                    recorded: record(ActionKind::CreateLink, "a", ActionStatus::Running),
                    error,
                }
            }
            ExecutionRequest::Inspect { .. } => ExecutionReply::Looked { answer: None },
            ExecutionRequest::Commit { action_id } => {
                let error = self.store(format!("{} committed", action_id.as_str()));
                self.set(&action_id, ActionStatus::Succeeded, &error);
                if !kept(&error) {
                    self.known += 1;
                }
                ExecutionReply::Stored { error }
            }
            ExecutionRequest::Record { action_id, status } => {
                let error = self.store(format!("{} {status:?}", action_id.as_str()));
                self.set(&action_id, status, &error);
                ExecutionReply::Stored { error }
            }
            ExecutionRequest::Close => ExecutionReply::Stored {
                error: self.close(),
            },
            ExecutionRequest::Finished => unreachable!(),
        }
    }

    fn recovery(&mut self, request: RecoveryRequest) -> RecoveryReply {
        match request {
            RecoveryRequest::OpenInspector => RecoveryReply::Inspector { available: true },
            RecoveryRequest::Proceed => RecoveryReply::Proceed,
            RecoveryRequest::Inspect { .. } => RecoveryReply::Looked {
                answer: Some(false),
            },
            RecoveryRequest::CleanReplacement { .. } | RecoveryRequest::CleanCopy { .. } => {
                RecoveryReply::Cleaned { done: false }
            }
            RecoveryRequest::Record { action_id, status } => {
                let error = self.store(format!("recovered {} {status:?}", action_id.as_str()));
                self.set(&action_id, status, &error);
                RecoveryReply::Stored { error }
            }
            RecoveryRequest::Commit { action_id } => {
                let error = self.store(format!("recovered {}", action_id.as_str()));
                self.set(&action_id, ActionStatus::Succeeded, &error);
                RecoveryReply::Stored { error }
            }
            RecoveryRequest::Close => {
                let error = self.store("recovery closed".to_string());
                if !kept(&error) {
                    self.closed = self.active.take();
                }
                RecoveryReply::Stored { error }
            }
            RecoveryRequest::Finished => unreachable!(),
        }
    }

    fn apply(&mut self) -> Result<ApplyReport, ApplyFailure> {
        let mut session = apply_request();
        let mut count = 0;
        loop {
            let reply = match session.request() {
                ApplyRequest::Lock => {
                    self.locks += 1;
                    self.active = self.left.map(|left| left());
                    ApplyReply::Locked {
                        outcome: Ok(self.left.map(|left| left())),
                    }
                }
                ApplyRequest::Recovery { request } => ApplyReply::Recovery {
                    reply: self.recovery(request),
                },
                ApplyRequest::Resolve => {
                    self.log.push("resolved".to_string());
                    ApplyReply::Resolved {
                        resolution: if self.unresolved {
                            Resolution::Unconfigured(QueryError::ConfigField("x".to_string()))
                        } else {
                            Resolution::Resolved(input(&self.names))
                        },
                    }
                }
                ApplyRequest::Plan => ApplyReply::Planned {
                    outcome: self.plan.take().ok_or("no home".to_string()),
                },
                ApplyRequest::OpenExecutors => ApplyReply::Opened { error: None },
                ApplyRequest::Preflight { index, .. } => {
                    self.log.push(format!("checked {index}"));
                    ApplyReply::Preflighted {
                        failure: self.preflight_failure.take(),
                    }
                }
                ApplyRequest::PreflightState => ApplyReply::Stored {
                    error: if self.state_unwritable {
                        Some(refusal(CommitFailureEffect::PreviousStateRetained))
                    } else {
                        None
                    },
                },
                ApplyRequest::Hash => ApplyReply::Hashed {
                    outcome: Ok("sha256:0".to_string()),
                },
                ApplyRequest::Confirm => {
                    self.log.push("asked".to_string());
                    assert!(self.active.is_none());
                    assert_eq!(self.locks, 1);
                    ApplyReply::Confirmed {
                        accepted: self.accepted,
                    }
                }
                ApplyRequest::Begin => {
                    let (hash, actions) = session.operation_to_begin().unwrap();
                    assert_eq!(hash, "sha256:0");
                    count += actions.len();
                    self.log.push(format!("began {count}"));
                    self.active = Some(
                        actions
                            .iter()
                            .enumerate()
                            .map(|(index, action)| {
                                let name = &action.resource_id().as_str()["base/".len()..];
                                RecordedEntry {
                                    id: ActionId::new(format!("a{}", index + 1)),
                                    action: record(
                                        action.kind(),
                                        name,
                                        ActionStatus::Pending,
                                    ),
                                }
                            })
                            .collect(),
                    );
                    ApplyReply::Began {
                        outcome: Ok((1..=count)
                            .map(|n| ActionId::new(format!("a{n}")))
                            .collect()),
                    }
                }
                ApplyRequest::Execution { request, .. } => {
                    assert_eq!(session.input().unwrap().desired, input(&self.names).desired);
                    ApplyReply::Execution {
                        reply: self.execution(request),
                    }
                }
                ApplyRequest::Close => ApplyReply::Stored {
                    error: self.close(),
                },
                ApplyRequest::ReadOutcome => ApplyReply::Outcome {
                    operation: self.outcome(),
                },
                ApplyRequest::Finished => return session.finish().unwrap(),
            };
            session = apply_request_with_hooks(session, reply);
        }
    }
}

/// Whether a commit left what was on record before it.
fn kept(error: &Option<StateRepositoryError>) -> bool {
    matches!(
        error,
        Some(StateRepositoryError::Commit {
            effect: CommitFailureEffect::PreviousStateRetained,
            ..
        })
    )
}

fn names(list: &[FullyQualifiedResourceId]) -> Vec<&str> {
    list.iter().map(|id| id.as_str()).collect()
}

const TWELVE: [&str; 12] = [
    "r00", "r01", "r02", "r03", "r04", "r05", "r06", "r07", "r08", "r09", "r10", "r11",
];

#[test]
fn whole_plan_records_every_action_then_executes_in_plan_order_under_one_lock() {
    let mut machine = Machine::new(
        TWELVE.iter().rev().copied().collect(),
        plan(TWELVE.iter().map(|name| create(name)).collect()),
    );
    let Ok(ApplyReport::Applied { committed, .. }) = machine.apply() else {
        panic!("apply failed");
    };
    let expected: Vec<String> = TWELVE.iter().map(|name| format!("base/{name}")).collect();
    assert_eq!(
        machine.observed,
        expected
            .iter()
            .cloned()
            .enumerate()
            .map(|(index, name)| (name, index))
            .collect::<Vec<_>>()
    );
    assert_eq!(names(&committed), expected);
    assert_eq!(machine.locks, 1);
    assert!(machine.active.is_none());
    let closed = machine.closed.as_ref().unwrap();
    assert_eq!(closed.len(), 12);
    assert!(closed
        .iter()
        .all(|entry| entry.action.status() == ActionStatus::Succeeded));
    let mut log = vec!["resolved".to_string()];
    log.extend((0..12).map(|index| format!("checked {index}")));
    log.push("asked".to_string());
    log.push("began 12".to_string());
    for n in 1..=12 {
        log.push(format!("a{n} running"));
        log.push(format!("a{n} executed"));
        log.push(format!("a{n} committed"));
    }
    log.push("closed".to_string());
    assert_eq!(machine.log, log);
}

#[test]
fn what_an_apply_resolved_stays_as_it_was() {
    let mut session = apply_request();
    assert!(session.input().is_none());
    session = apply_request_with_hooks(session, ApplyReply::Locked { outcome: Ok(None) });
    assert!(session.input().is_none());
    session = apply_request_with_hooks(
        session,
        ApplyReply::Resolved {
            resolution: Resolution::Resolved(input(&["b", "a"])),
        },
    );
    for reply in [
        ApplyReply::Planned {
            outcome: Ok(plan(vec![create("a"), create("b")])),
        },
        ApplyReply::Opened { error: None },
    ] {
        let held = session.input().unwrap();
        assert_eq!(held.desired.root_profile().as_str(), "base");
        assert_eq!(held.desired, input(&["a", "b"]).desired);
        assert_eq!(held.verified_sources.len(), 2);
        session = apply_request_with_hooks(session, reply);
    }
    assert_eq!(session.input().unwrap().desired, input(&["a", "b"]).desired);
}

#[test]
fn later_recheck_failure_retains_earlier_success_and_skips_every_remaining_action() {
    let mut machine = Machine::new(
        vec!["c", "b", "a"],
        plan(vec![create("a"), create("b"), create("c")]),
    );
    machine.failing = Some((
        "a2",
        ResourceExecutionError::CreateLink(CreateLinkExecutionError::PreconditionNoLongerHolds {
            message: "unmanaged".to_string(),
        }),
    ));
    let failure = machine.apply().unwrap_err();
    assert_eq!(failure.stage, ApplyStage::Execution);
    assert_eq!(names(&failure.committed), ["base/a"]);
    assert_eq!(machine.known, 1);
    let Some(OperationOutcome::Retained(operation)) = &failure.operation else {
        panic!("the operation is still on record");
    };
    let left: fn() -> Vec<RecordedEntry> = || {
        vec![
            entry("a1", "a", ActionStatus::Succeeded),
            entry("a2", "b", ActionStatus::Uncertain),
            entry("a3", "c", ActionStatus::Skipped),
        ]
    };
    assert_eq!(operation.actions, left());
    assert!(failure.commit_failure.is_none());
    let affected = failure.affected_action.as_ref().unwrap();
    assert_eq!(affected.resource_id.as_str(), "base/b");
    assert_eq!(affected.action_id.as_ref().unwrap().as_str(), "a2");
    assert_eq!(machine.log.last().unwrap(), "a3 Skipped");
    assert!(!machine.log.contains(&"a3 executed".to_string()));
    assert!(!machine.log.contains(&"closed".to_string()));
    // A recovery that stays uncertain is another stage, and keeps any declaration from being read.
    let mut machine = Machine::new(vec![], plan(vec![]));
    machine.left = Some(left);
    machine.unresolved = true;
    let next = machine.apply().unwrap_err();
    assert_eq!(next.stage, ApplyStage::Recovery);
    assert_eq!(next.operation, failure.operation);
    assert_eq!(next.affected_action, failure.affected_action);
    assert!(matches!(
        next.cause,
        ApplyFailureCause::Lifecycle(ApplyError::RecoveryRequired)
    ));
    assert!(!machine.log.contains(&"resolved".to_string()));
    assert!(!machine.log.contains(&"asked".to_string()));
}

#[test]
fn multi_action_commit_failure_recovers_then_plans_current_declarations() {
    for effect in [
        CommitFailureEffect::PreviousStateRetained,
        CommitFailureEffect::ReplacedDurabilityUnconfirmed,
    ] {
        let replaced = effect == CommitFailureEffect::ReplacedDurabilityUnconfirmed;
        let mut machine = Machine::new(
            vec!["a", "b", "c"],
            plan(vec![create("a"), create("b"), create("c")]),
        );
        machine.refused = Some(("a2 committed", effect));
        let failure = machine.apply().unwrap_err();
        assert_eq!(failure.stage, ApplyStage::Execution);
        assert_eq!(names(&failure.committed), ["base/a"]);
        assert!(!machine.log.contains(&"a3 executed".to_string()));
        let affected = failure.affected_action.as_ref().unwrap();
        assert_eq!(affected.resource_id.as_str(), "base/b");
        assert_eq!(affected.kind, ActionKind::CreateLink);
        assert_eq!(affected.action_id.as_ref().unwrap().as_str(), "a2");
        assert_eq!(failure.commit_failure, Some(effect));
        assert_eq!(machine.known, if replaced { 2 } else { 1 });
        let Some(OperationOutcome::Retained(operation)) = &failure.operation else {
            panic!("the operation is still on record");
        };
        let left: fn() -> Vec<RecordedEntry> = if replaced {
            || {
                vec![
                    entry("a1", "a", ActionStatus::Succeeded),
                    entry("a2", "b", ActionStatus::Succeeded),
                    entry("a3", "c", ActionStatus::Pending),
                ]
            }
        } else {
            || {
                vec![
                    entry("a1", "a", ActionStatus::Succeeded),
                    entry("a2", "b", ActionStatus::Running),
                    entry("a3", "c", ActionStatus::Pending),
                ]
            }
        };
        assert_eq!(operation.actions, left());
        // The recovery comes before declarations that cannot be read.
        let mut machine = Machine::new(vec![], plan(vec![]));
        machine.left = Some(left);
        machine.unresolved = true;
        let failure = machine.apply().unwrap_err();
        assert!(!machine.log.contains(&"asked".to_string()));
        if !replaced {
            assert_eq!(failure.stage, ApplyStage::Recovery);
            assert_eq!(
                failure.affected_action.unwrap().resource_id.as_str(),
                "base/b"
            );
            let Some(OperationOutcome::Retained(operation)) = &failure.operation else {
                panic!("an unfinished create stays on record");
            };
            assert_eq!(
                statuses(operation),
                [
                    ActionStatus::Succeeded,
                    ActionStatus::Uncertain,
                    ActionStatus::Skipped
                ]
            );
            continue;
        }
        assert_eq!(failure.stage, ApplyStage::Resolution);
        assert!(failure.affected_action.is_none());
        assert!(failure.commit_failure.is_none());
        let Some(OperationOutcome::Closed(operation)) = &failure.operation else {
            panic!("a recovered operation is closed");
        };
        assert!(can_close(&operation.actions));
        assert_eq!(
            statuses(operation),
            [
                ActionStatus::Succeeded,
                ActionStatus::Succeeded,
                ActionStatus::Skipped
            ]
        );
        // What is declared now makes the next plan, and never what was pending.
        let mut machine = Machine::new(
            vec!["a", "b", "d"],
            plan(vec![noop("a"), noop("b"), create("d")]),
        );
        assert!(matches!(
            machine.apply(),
            Ok(ApplyReport::Applied { committed, .. }) if names(&committed) == ["base/d"]
        ));
    }
}

#[test]
fn definite_failure_closes_the_operation_after_the_rest_is_skipped() {
    let mut machine = Machine::new(vec!["a", "b"], plan(vec![create("a"), create("b")]));
    machine.failing = Some((
        "a1",
        ResourceExecutionError::StaleLink(StaleLinkExecutionError::Remove(
            RemoveLinkExecutionError::PreconditionNoLongerHolds {
                message: "gone".to_string(),
            },
        )),
    ));
    let failure = machine.apply().unwrap_err();
    assert!(failure.committed.is_empty());
    assert_eq!(
        machine.log[5..],
        ["a1 running", "a1 executed", "a1 Failed", "a2 Skipped", "closed"]
    );
    assert!(matches!(
        &failure.operation,
        Some(OperationOutcome::Closed(operation))
            if statuses(operation) == [ActionStatus::Failed, ActionStatus::Skipped]
    ));
}

fn elsewhere(name: &str, source: &str, target: &str) -> KnownFileLink {
    KnownFileLink::from_resolved(
        &ResolvedFileLink::new(id(name), path(source), path(target)).unwrap(),
    )
}

#[test]
fn enabled_removal_and_creation_commit_in_deterministic_phases() {
    let mut machine = Machine::new(
        vec!["new"],
        plan(vec![
            create("new"),
            PlannedAction::remove_link(known("stale")),
        ]),
    );
    assert!(matches!(
        machine.apply(),
        Ok(ApplyReport::Applied { committed, .. }) if committed.len() == 2
    ));
    assert_eq!(
        machine.kinds,
        [ActionKind::CreateLink, ActionKind::RemoveLink]
    );
}

#[test]
fn phase_two_handoff_then_phase_three_forget_are_state_only_and_sequential() {
    let mut machine = Machine::new(
        vec!["new", "z"],
        plan(vec![
            create("z"),
            PlannedAction::replace_ownership(
                desired("new"),
                elsewhere("base/old", "/s/new", "/h/new"),
            )
            .unwrap(),
            PlannedAction::forget_missing(known("stale")),
        ]),
    );
    let Ok(ApplyReport::Applied { committed, .. }) = machine.apply() else {
        panic!("apply failed");
    };
    assert_eq!(names(&committed), ["base/z", "base/new", "base/stale"]);
    assert_eq!(
        machine.kinds,
        [
            ActionKind::CreateLink,
            ActionKind::ReplaceOwnership,
            ActionKind::ForgetMissing
        ]
    );
}

#[test]
fn failure_in_forget_phase_stops_later_forgets_and_closes_definite_failure() {
    let mut machine = Machine::new(
        vec!["new", "z"],
        plan(vec![
            create("z"),
            PlannedAction::replace_ownership(
                desired("new"),
                elsewhere("base/old", "/s/new", "/h/new"),
            )
            .unwrap(),
            PlannedAction::forget_missing(known("stale-a")),
            PlannedAction::forget_missing(known("stale-b")),
        ]),
    );
    machine.failing = Some((
        "a3",
        ResourceExecutionError::StaleLink(StaleLinkExecutionError::ForgetMissing(
            ForgetMissingExecutionError::PostconditionNotMet {
                message: "unmanaged".to_string(),
            },
        )),
    ));
    let failure = machine.apply().unwrap_err();
    assert_eq!(failure.stage, ApplyStage::Execution);
    assert_eq!(
        failure
            .affected_action
            .as_ref()
            .unwrap()
            .resource_id
            .as_str(),
        "base/stale-a"
    );
    assert!(failure.commit_failure.is_none());
    let Some(OperationOutcome::Closed(operation)) = &failure.operation else {
        panic!("a definite failure closes the record");
    };
    assert_eq!(
        statuses(operation),
        [
            ActionStatus::Succeeded,
            ActionStatus::Succeeded,
            ActionStatus::Failed,
            ActionStatus::Skipped
        ]
    );
    assert_eq!(machine.kinds.len(), 3);
    assert_eq!(names(&failure.committed), ["base/z", "base/new"]);
    assert_eq!(machine.known, 2);
}

#[test]
fn enabled_replacement_actions_allow_an_earlier_create() {
    for (name, old) in [("base/old", "base/old"), ("base/renamed", "base/old")] {
        let link = ResolvedFileLink::new(id(name), path("/s/replacement"), path("/h/old")).unwrap();
        let known = elsewhere(old, "/s/config", "/h/old");
        let action = if name == old {
            PlannedAction::replace_link(link, known).unwrap()
        } else {
            PlannedAction::replace_ownership(link, known).unwrap()
        };
        let resolved = |link: ResolvedFileLink| ResolvedResource::FileLink(link);
        let mut session = apply_request();
        let mut planned = Some(plan(vec![create("create"), action]));
        let report = loop {
            let reply = match session.request() {
                ApplyRequest::Lock => ApplyReply::Locked { outcome: Ok(None) },
                ApplyRequest::Resolve => ApplyReply::Resolved {
                    resolution: Resolution::Resolved(ResolvedApplyInput {
                        desired: ResolvedDesired::new(
                            ProfileId::new("base".to_string()),
                            vec![
                                resolved(desired("create")),
                                resolved(
                                    ResolvedFileLink::new(
                                        id(name),
                                        path("/s/replacement"),
                                        path("/h/old"),
                                    )
                                    .unwrap(),
                                ),
                            ],
                        )
                        .unwrap(),
                        verified_sources: vec![
                            VerifiedSource {
                                resource_id: id("base/create"),
                                source_path: path("/s/create"),
                            },
                            VerifiedSource {
                                resource_id: id(name),
                                source_path: path("/s/replacement"),
                            },
                        ],
                    }),
                },
                ApplyRequest::Plan => ApplyReply::Planned {
                    outcome: Ok(planned.take().unwrap()),
                },
                ApplyRequest::OpenExecutors => ApplyReply::Opened { error: None },
                ApplyRequest::Preflight { .. } => ApplyReply::Preflighted { failure: None },
                ApplyRequest::Hash => ApplyReply::Hashed {
                    outcome: Ok("sha256:0".to_string()),
                },
                ApplyRequest::Confirm => ApplyReply::Confirmed { accepted: true },
                ApplyRequest::Begin => ApplyReply::Began {
                    outcome: Ok(vec![
                        ActionId::new("a1".to_string()),
                        ActionId::new("a2".to_string()),
                    ]),
                },
                ApplyRequest::Execution {
                    request: ExecutionRequest::Execute { .. },
                    ..
                } => ApplyReply::Execution {
                    reply: ExecutionReply::Executed {
                        recorded: record(ActionKind::CreateLink, "a", ActionStatus::Running),
                        error: None,
                    },
                },
                ApplyRequest::Execution { .. } => ApplyReply::Execution {
                    reply: ExecutionReply::Stored { error: None },
                },
                ApplyRequest::PreflightState | ApplyRequest::Close => {
                    ApplyReply::Stored { error: None }
                }
                ApplyRequest::Recovery { .. } | ApplyRequest::ReadOutcome => unreachable!(),
                ApplyRequest::Finished => break session.finish().unwrap(),
            };
            session = apply_request_with_hooks(session, reply);
        };
        assert!(matches!(
            report,
            Ok(ApplyReport::Applied { committed, .. }) if names(&committed) == ["base/create", name]
        ));
    }
}

#[test]
fn skipped_progress_commit_failure_identifies_the_unwritten_action() {
    let mut machine = Machine::new(
        vec!["a", "b", "c"],
        plan(vec![create("a"), create("b"), create("c")]),
    );
    machine.failing = Some((
        "a2",
        ResourceExecutionError::CreateLink(CreateLinkExecutionError::PreconditionNoLongerHolds {
            message: "unmanaged".to_string(),
        }),
    ));
    machine.refused = Some(("a3 Skipped", CommitFailureEffect::PreviousStateRetained));
    let failure = machine.apply().unwrap_err();
    assert_eq!(failure.stage, ApplyStage::Execution);
    assert_eq!(
        failure.affected_action.unwrap().resource_id.as_str(),
        "base/c"
    );
    assert_eq!(
        failure.commit_failure,
        Some(CommitFailureEffect::PreviousStateRetained)
    );
    let Some(OperationOutcome::Retained(operation)) = failure.operation else {
        panic!("the operation is still on record");
    };
    assert_eq!(
        statuses(&operation),
        [
            ActionStatus::Succeeded,
            ActionStatus::Uncertain,
            ActionStatus::Pending
        ]
    );
}

#[test]
fn closure_commit_failure_reports_retained_or_closed_record_with_durability() {
    for effect in [
        CommitFailureEffect::PreviousStateRetained,
        CommitFailureEffect::ReplacedDurabilityUnconfirmed,
    ] {
        let mut machine = Machine::new(vec!["a"], plan(vec![create("a")]));
        machine.refused = Some(("closed", effect));
        let failure = machine.apply().unwrap_err();
        assert_eq!(failure.stage, ApplyStage::Closure);
        assert_eq!(names(&failure.committed), ["base/a"]);
        assert!(failure.affected_action.is_none());
        let succeeded = || entry("a1", "a", ActionStatus::Succeeded);
        let (operation, left) = match failure.operation.as_ref().unwrap() {
            OperationOutcome::Retained(operation) => {
                assert_eq!(effect, CommitFailureEffect::PreviousStateRetained);
                assert_eq!(
                    failure.commit_failure,
                    Some(CommitFailureEffect::PreviousStateRetained)
                );
                let left: fn() -> Vec<RecordedEntry> =
                    || vec![entry("a1", "a", ActionStatus::Succeeded)];
                (operation, Some(left))
            }
            OperationOutcome::Closed(operation) => {
                assert_eq!(effect, CommitFailureEffect::ReplacedDurabilityUnconfirmed);
                assert_eq!(
                    failure.commit_failure,
                    Some(CommitFailureEffect::ReplacedDurabilityUnconfirmed)
                );
                (operation, None)
            }
            OperationOutcome::Absent => panic!("the operation began"),
        };
        assert_eq!(operation.actions, [succeeded()]);
        assert_eq!(operation.actions[0].action.status(), ActionStatus::Succeeded);
        // A later invocation may change the repository after the lock is released.
        let mut later = Machine::new(vec!["a"], plan(vec![noop("a")]));
        later.left = left;
        assert!(later.apply().is_ok());
        assert_eq!(operation.actions, [succeeded()]);
    }
}

#[test]
fn empty_noop_and_mixed_plans_confirm_but_record_only_required_transitions() {
    let mut machine = Machine::new(vec![], plan(vec![]));
    assert!(matches!(
        machine.apply(),
        Ok(ApplyReport::Applied { committed, .. }) if committed.is_empty()
    ));
    assert_eq!(machine.log, ["resolved", "asked"]);
    let mut machine = Machine::new(vec!["a"], plan(vec![noop("a")]));
    machine.accepted = false;
    assert!(matches!(machine.apply(), Ok(ApplyReport::Declined { .. })));
    assert_eq!(machine.log, ["resolved", "checked 0", "asked"]);
    let mut machine = Machine::new(vec!["a"], plan(vec![noop("a")]));
    assert!(matches!(
        machine.apply(),
        Ok(ApplyReport::Applied { committed, .. }) if committed.is_empty()
    ));
    assert_eq!(machine.log, ["resolved", "checked 0", "asked"]);
    let mut machine = Machine::new(vec!["a", "b"], plan(vec![noop("a"), create("b")]));
    let Ok(ApplyReport::Applied { committed, .. }) = machine.apply() else {
        panic!("apply failed");
    };
    assert_eq!(names(&committed), ["base/b"]);
    assert!(machine.log.contains(&"began 1".to_string()));
    assert_eq!(machine.observed, [("base/b".to_string(), 0)]);
    let closed = machine.closed.unwrap();
    assert_eq!(closed.len(), 1);
    assert_eq!(closed[0].action.resource_id().as_str(), "base/b");
}

#[test]
fn blocked_plan_does_not_create_an_operation_record_or_replace_the_target() {
    let blocked = || {
        Plan::new(
            vec![],
            vec![Diagnostic::UnexpectedTarget {
                resource_id: id("base/a"),
                target_path: path("/h/a"),
                observation: TargetObservation::Missing,
            }],
        )
        .unwrap()
    };
    let mut machine = Machine::new(vec!["a"], blocked());
    assert!(matches!(machine.apply(), Ok(ApplyReport::Blocked { .. })));
    assert_eq!(machine.log, ["resolved"]);
    let mut single = Single::new(blocked());
    assert!(matches!(
        single.create(&["a"]),
        Ok(SingleActionApplyResult::Blocked { .. })
    ));
    assert!(single.log.is_empty());
}

#[test]
fn preflight_failure_leaves_target_and_operation_record_absent() {
    let not_regular = || {
        PreflightFailure::Create(CreateLinkExecutionError::SourceRecheck {
            message: "source is not a regular file".to_string(),
        })
    };
    let mut machine = Machine::new(vec!["a"], plan(vec![create("a")]));
    machine.preflight_failure = Some(not_regular());
    let failure = machine.apply().unwrap_err();
    assert_eq!(failure.stage, ApplyStage::Preflight);
    assert!(matches!(
        failure.cause,
        ApplyFailureCause::Lifecycle(ApplyError::Preflight(
            CreateLinkExecutionError::SourceRecheck { .. }
        ))
    ));
    assert_eq!(machine.log, ["resolved", "checked 0"]);
    let mut single = Single::new(plan(vec![create("a")]));
    single.preflight_failure = Some(not_regular());
    assert!(matches!(
        single.create(&["a"]),
        Err(ApplyError::Preflight(
            CreateLinkExecutionError::SourceRecheck { .. }
        ))
    ));
    assert!(single.log.is_empty());
}

#[test]
fn state_write_preflight_failure_skips_confirmation_and_leaves_no_operation_record() {
    let mut machine = Machine::new(vec!["a"], plan(vec![create("a")]));
    machine.state_unwritable = true;
    let failure = machine.apply().unwrap_err();
    assert!(matches!(
        failure.cause,
        ApplyFailureCause::Lifecycle(ApplyError::StatePreflight(_))
    ));
    assert_eq!(failure.commit_failure, None);
    assert_eq!(machine.log, ["resolved", "checked 0"]);
    let mut single = Single::new(plan(vec![create("a")]));
    single.state_unwritable = true;
    assert!(matches!(
        single.create(&["a"]),
        Err(ApplyError::StatePreflight(_))
    ));
    assert!(single.log.is_empty());
}

#[test]
fn declined_confirmation_follows_preflight_and_leaves_no_operation_record() {
    let mut machine = Machine::new(vec!["a"], plan(vec![create("a")]));
    machine.accepted = false;
    let Ok(ApplyReport::Declined { plan: shown }) = machine.apply() else {
        panic!("the question was answered with no");
    };
    assert!(shown.is_executable());
    assert_eq!(shown.actions().len(), 1);
    assert_eq!(machine.log, ["resolved", "checked 0", "asked"]);
    let mut single = Single::new(plan(vec![create("a")]));
    single.accepted = false;
    let Ok(SingleActionApplyResult::Declined { plan: shown }) = single.create(&["a"]) else {
        panic!("the question was answered with no");
    };
    assert!(shown.is_executable());
    assert_eq!(shown.actions().len(), 1);
    assert_eq!(single.log, ["asked"]);
}

#[test]
fn recovery_marks_an_unprovable_running_operation_uncertain_before_blocking_a_fresh_plan() {
    let mut machine = Machine::new(vec!["a"], plan(vec![create("a")]));
    machine.left = Some(|| vec![entry("old", "a", ActionStatus::Running)]);
    let failure = machine.apply().unwrap_err();
    assert_eq!(failure.stage, ApplyStage::Recovery);
    assert!(matches!(
        failure.cause,
        ApplyFailureCause::Lifecycle(ApplyError::RecoveryRequired)
    ));
    assert_eq!(machine.log, ["recovered old Uncertain"]);
    assert!(matches!(
        failure.operation,
        Some(OperationOutcome::Retained(operation))
            if statuses(&operation) == [ActionStatus::Uncertain]
    ));
    let mut single = Single::new(plan(vec![create("a")]));
    single.left = Some(vec![entry("old", "a", ActionStatus::Running)]);
    assert!(matches!(
        single.create(&["a"]),
        Err(ApplyError::RecoveryRequired)
    ));
    assert_eq!(single.log, ["recovered old Uncertain"]);
}

#[test]
fn a_recovered_operation_is_closed_before_declarations_are_read() {
    let mut machine = Machine::new(vec![], plan(vec![]));
    machine.left = Some(|| vec![entry("old", "a", ActionStatus::Pending)]);
    assert!(machine.apply().is_ok());
    assert_eq!(
        machine.log,
        ["recovered old Skipped", "recovery closed", "resolved", "asked"]
    );
}

#[test]
fn a_missing_source_stops_before_any_question() {
    let mut machine = Machine::new(vec![], plan(vec![create("a")]));
    let failure = machine.apply().unwrap_err();
    assert!(matches!(
        failure.cause,
        ApplyFailureCause::Lifecycle(ApplyError::MissingVerifiedSource { resource_id })
            if resource_id.as_str() == "base/a"
    ));
    assert_eq!(machine.log, ["resolved"]);
}

#[test]
fn without_the_lock_nothing_is_known_of_the_operation() {
    let session = apply_request();
    let session = apply_request_with_hooks(
        session,
        ApplyReply::Locked {
            outcome: Err(refusal(CommitFailureEffect::PreviousStateRetained)),
        },
    );
    let failure = session.finish().unwrap().unwrap_err();
    assert_eq!(failure.stage, ApplyStage::LockAndState);
    assert!(failure.operation.is_none());
}

#[test]
fn lock_and_invalid_state_fail_before_resolution_or_home_observation() {
    for message in ["locked by another process", "state is invalid"] {
        let session = apply_request();
        assert!(matches!(session.request(), ApplyRequest::Lock));
        let session = apply_request_with_hooks(
            session,
            ApplyReply::Locked {
                outcome: Err(StateRepositoryError::Other {
                    message: message.to_string(),
                }),
            },
        );
        assert!(matches!(session.request(), ApplyRequest::Finished));
        let failure = session.finish().unwrap().unwrap_err();
        assert_eq!(failure.stage, ApplyStage::LockAndState);
        assert!(failure.operation.is_none());
        assert!(failure.affected_action.is_none());
        assert!(failure.commit_failure.is_none());
        assert!(matches!(
            failure.cause,
            ApplyFailureCause::Lifecycle(ApplyError::State(StateRepositoryError::Other {
                message: told
            })) if told == message
        ));
    }
}

#[test]
fn an_input_error_is_told_apart_from_the_lifecycle() {
    let mut session = apply_request();
    session = apply_request_with_hooks(session, ApplyReply::Locked { outcome: Ok(None) });
    session = apply_request_with_hooks(
        session,
        ApplyReply::Resolved {
            resolution: Resolution::Unconfigured(QueryError::ConfigField("x".to_string())),
        },
    );
    session = apply_request_with_hooks(
        session,
        ApplyReply::Outcome {
            operation: OperationOutcome::Absent,
        },
    );
    let failure = session.finish().unwrap().unwrap_err();
    assert_eq!(failure.stage, ApplyStage::Resolution);
    assert!(matches!(failure.cause, ApplyFailureCause::Input(_)));
}

#[test]
fn an_unfinished_apply_has_no_report() {
    assert!(apply_request().finish().is_none());
}

fn copy(name: &str) -> ResolvedFileCopy {
    ResolvedFileCopy::new(
        id(&format!("base/{name}")),
        path(&format!("/s/{name}")),
        path(&format!("/h/{name}")),
        ContentFingerprint::parse(format!("sha256:{}", "a".repeat(64))).unwrap(),
    )
    .unwrap()
}

#[test]
fn each_action_is_checked_and_executed_by_its_own_call() {
    let resolved = input(&["a"]);
    let link = |action| PlannedResourceAction::FileLink(action);
    for (action, check, call) in [
        (
            link(create("a")),
            PreflightName::Create,
            ExecuteName::CreateLink,
        ),
        (
            link(PlannedAction::remove_link(known("a"))),
            PreflightName::Remove,
            ExecuteName::RemoveLink,
        ),
        (
            link(PlannedAction::forget_missing(known("a"))),
            PreflightName::ForgetMissing,
            ExecuteName::ForgetMissingLink,
        ),
        (
            PlannedResourceAction::FileCopy(PlannedFileCopyAction::Create {
                desired: copy("a"),
            }),
            PreflightName::Copy,
            ExecuteName::CreateCopy,
        ),
        (
            PlannedResourceAction::ReplaceEffect(
                PlannedEffectHandoff::new(
                    KnownResource::FileLink(known("a")),
                    ResolvedResource::FileCopy(copy("a")),
                )
                .unwrap(),
            ),
            PreflightName::Copy,
            ExecuteName::LinkToCopyHandoff,
        ),
    ] {
        assert_eq!(preflight(&action, &resolved).unwrap().name, check);
        assert_eq!(execute(&action, &resolved).unwrap().name, call);
    }
    assert!(matches!(
        preflight(&link(create("b")), &resolved),
        Err(ApplyError::MissingVerifiedSource { .. })
    ));
}

#[test]
fn a_handoff_of_one_source_is_told_whatever_the_case_of_its_drive() {
    let windows = |text: &str| ResolvedPath::new(text, Platform::Windows).unwrap();
    let link = |name: &str, source: &str, target: &str| {
        ResolvedFileLink::new(id(name), windows(source), windows(target)).unwrap()
    };
    for (source, check, call) in [
        (
            r"c:\s\a",
            PreflightName::SameSourceHandoff,
            ExecuteName::SameSourceHandoff,
        ),
        (r"c:\s\A", PreflightName::Replace, ExecuteName::ReplaceLink),
    ] {
        let action = PlannedResourceAction::FileLink(
            PlannedAction::replace_ownership(
                link("base/a", source, r"c:\h\a"),
                KnownFileLink::from_resolved(&link("base/old", r"C:\s\a", r"C:\h\a")),
            )
            .unwrap(),
        );
        let resolved = input(&["a"]);
        assert_eq!(preflight(&action, &resolved).unwrap().name, check);
        assert_eq!(execute(&action, &resolved).unwrap().name, call);
    }
}

#[test]
fn shared_coordination_keeps_both_entry_points_restricted_to_one_action() {
    let coordinator = ApplyCoordinator::new(path("/h"), path("/state"));
    for names in [&[][..], &["first", "second"][..]] {
        let several = || plan(names.iter().map(|name| create(name)).collect());
        let expected_kinds = vec![ActionKind::CreateLink; names.len()];
        let mut single = Single::new(several());
        assert!(matches!(
            single.create(names),
            Err(ApplyError::SliceFourRequiresSingleCreateAction { action_kinds })
                if action_kinds == expected_kinds
        ));
        assert!(single.log.is_empty());
        let mut single = Single::new(several());
        let session = coordinator.apply_stale_link(input(names));
        assert!(matches!(
            single.run(&coordinator, session, names),
            Err(ApplyError::SliceFiveRequiresSingleStaleAction { action_kinds })
                if action_kinds == expected_kinds
        ));
        assert!(single.log.is_empty());
    }
    let both = plan(vec![create("a"), create("b")]);
    assert!(matches!(
        require_single_create_action(&both),
        Err(ApplyError::SliceFourRequiresSingleCreateAction { action_kinds })
            if action_kinds == [ActionKind::CreateLink, ActionKind::CreateLink]
    ));
    assert!(matches!(
        require_single_stale_action(&both),
        Err(ApplyError::SliceFiveRequiresSingleStaleAction { .. })
    ));
    assert!(matches!(
        require_single_replace_action(&both),
        Err(ApplyError::SliceSixRequiresSingleReplaceAction { .. })
    ));
    assert!(matches!(
        require_single_replace_ownership_action(&both),
        Err(ApplyError::SliceSixRequiresSingleReplaceOwnershipAction { .. })
    ));
    assert!(matches!(
        require_single_relocate_action(&both),
        Err(ApplyError::SliceSixRequiresSingleRelocateAction { .. })
    ));
    let one = plan(vec![create("a")]);
    assert_eq!(
        require_single_create_action(&one).unwrap().kind(),
        ActionKind::CreateLink
    );
    let stale = plan(vec![PlannedAction::remove_link(known("a"))]);
    assert!(require_single_stale_action(&stale).is_ok());
    assert!(require_single_create_action(&stale).is_err());
}

/// A machine that answers what a single action asks, and notes what it was asked to do.
struct Single {
    left: Option<Vec<RecordedEntry>>,
    plan: Option<Plan>,
    preflight_failure: Option<PreflightFailure>,
    state_unwritable: bool,
    accepted: bool,
    error: Option<ResourceExecutionError>,
    refused: Option<(&'static str, CommitFailureEffect)>,
    log: Vec<String>,
}

impl Single {
    fn new(plan: Plan) -> Self {
        Single {
            left: None,
            plan: Some(plan),
            preflight_failure: None,
            state_unwritable: false,
            accepted: true,
            error: None,
            refused: None,
            log: vec![],
        }
    }

    fn store(&mut self, what: String) -> SingleReply {
        let error = match &self.refused {
            Some((name, effect)) if what == *name => Some(refusal(*effect)),
            _ => None,
        };
        self.log.push(what);
        SingleReply::Stored { error }
    }

    fn create(&mut self, names: &[&str]) -> Result<SingleActionApplyResult, ApplyError> {
        let coordinator = ApplyCoordinator::new(path("/h"), path("/state"));
        let session = coordinator.apply_create_link(input(names));
        self.run(&coordinator, session, names)
    }

    fn run(
        &mut self,
        coordinator: &ApplyCoordinator,
        mut session: SingleSession,
        names: &[&str],
    ) -> Result<SingleActionApplyResult, ApplyError> {
        loop {
            assert_eq!(session.input().desired, input(names).desired);
            assert_eq!(session.input().verified_sources.len(), names.len());
            let reply = match session.request() {
                SingleRequest::Lock => SingleReply::Locked {
                    outcome: Ok(self.left.take()),
                },
                SingleRequest::Recovery { request } => SingleReply::Recovery {
                    reply: match request {
                        RecoveryRequest::OpenInspector => {
                            RecoveryReply::Inspector { available: true }
                        }
                        RecoveryRequest::Proceed => RecoveryReply::Proceed,
                        RecoveryRequest::Inspect { .. } => RecoveryReply::Looked {
                            answer: Some(false),
                        },
                        RecoveryRequest::Record { action_id, status } => {
                            self.log
                                .push(format!("recovered {} {status:?}", action_id.as_str()));
                            RecoveryReply::Stored { error: None }
                        }
                        _ => unreachable!(),
                    },
                },
                SingleRequest::Plan => {
                    assert!(session.plan().is_none());
                    SingleReply::Planned {
                        outcome: Ok(self.plan.take().unwrap()),
                    }
                }
                SingleRequest::OpenExecutor => SingleReply::Opened { error: None },
                SingleRequest::Preflight { call } => {
                    assert_eq!(call.name, PreflightName::Create);
                    SingleReply::Preflighted {
                        failure: self.preflight_failure.take(),
                    }
                }
                SingleRequest::PreflightState => SingleReply::Stored {
                    error: if self.state_unwritable {
                        Some(refusal(CommitFailureEffect::PreviousStateRetained))
                    } else {
                        None
                    },
                },
                SingleRequest::Hash => SingleReply::Hashed {
                    outcome: Ok("sha256:0".to_string()),
                },
                SingleRequest::Confirm => {
                    self.log.push("asked".to_string());
                    SingleReply::Confirmed {
                        accepted: self.accepted,
                    }
                }
                SingleRequest::Begin => {
                    self.log.push("began".to_string());
                    assert_eq!(session.hash_to_record().unwrap(), "sha256:0");
                    assert_eq!(session.plan().unwrap().actions().len(), 1);
                    SingleReply::Began {
                        outcome: Ok(ActionId::new("a1".to_string())),
                    }
                }
                SingleRequest::MarkRunning { .. } => {
                    self.log.push("running".to_string());
                    SingleReply::Marked {
                        outcome: Ok(record(ActionKind::CreateLink, "a", ActionStatus::Running)),
                    }
                }
                SingleRequest::Execute { name, source } => {
                    assert_eq!(name, ExecuteName::CreateLink);
                    assert_eq!(source.unwrap().source_path, path("/s/a"));
                    assert_eq!(self.log, ["asked", "began", "running"]);
                    SingleReply::Executed {
                        error: self.error.take(),
                    }
                }
                SingleRequest::Commit { .. } => self.store("committed".to_string()),
                SingleRequest::Record { status, .. } => self.store(format!("{status:?}")),
                SingleRequest::Close => self.store("closed".to_string()),
                SingleRequest::Finished => return session.finish().unwrap(),
            };
            session = coordinator.apply_single_action(session, reply);
        }
    }
}

#[test]
fn coordinator_locks_plans_preflights_records_executes_and_commits_create() {
    let mut single = Single::new(plan(vec![create("a")]));
    assert!(matches!(
        single.create(&["a"]),
        Ok(SingleActionApplyResult::Applied { resource_id, kind: ActionKind::CreateLink })
            if resource_id.as_str() == "base/a"
    ));
    assert_eq!(
        single.log,
        ["asked", "began", "running", "committed", "closed"]
    );
}

#[test]
fn running_is_durable_before_executor_recheck_and_an_uncertain_result_is_retained() {
    let mut single = Single::new(plan(vec![create("a")]));
    single.error = Some(ResourceExecutionError::CreateLink(
        CreateLinkExecutionError::PreconditionNoLongerHolds {
            message: "unmanaged".to_string(),
        },
    ));
    assert!(matches!(
        single.create(&["a"]),
        Ok(SingleActionApplyResult::Uncertain { .. })
    ));
    assert_eq!(single.log, ["asked", "began", "running", "Uncertain"]);
}

#[test]
fn successful_create_with_a_failed_state_commit_retains_the_link_and_running_operation() {
    let mut single = Single::new(plan(vec![create("a")]));
    single.refused = Some(("committed", CommitFailureEffect::PreviousStateRetained));
    assert!(matches!(
        single.create(&["a"]),
        Err(ApplyError::State(StateRepositoryError::Commit {
            effect: CommitFailureEffect::PreviousStateRetained,
            ..
        }))
    ));
    assert_eq!(single.log, ["asked", "began", "running", "committed"]);
}

#[test]
fn a_definite_failure_of_a_single_action_is_closed() {
    let mut single = Single::new(plan(vec![create("a")]));
    single.error = Some(ResourceExecutionError::CreateLink(
        CreateLinkExecutionError::CreateAttemptFailed {
            aftermath: TargetObservation::Missing,
            message: "denied".to_string(),
        },
    ));
    assert!(matches!(
        single.create(&["a"]),
        Ok(SingleActionApplyResult::Failed { .. })
    ));
    assert_eq!(single.log, ["asked", "began", "running", "Failed", "closed"]);
}

#[test]
fn an_error_after_a_copy_is_judged_by_the_recorded_conditions() {
    let mut machine = Machine::new(vec!["a"], plan(vec![create("a")]));
    machine.failing = Some((
        "a1",
        ResourceExecutionError::ReplaceCopy(CopyError {
            message: "interrupted".to_string(),
        }),
    ));
    let failure = machine.apply().unwrap_err();
    assert_eq!(
        machine.log[4..],
        ["a1 running", "a1 executed", "a1 Uncertain"]
    );
    assert!(matches!(
        failure.cause,
        ApplyFailureCause::Lifecycle(ApplyError::ResourceExecution(_))
    ));
}

/// Runs one action by itself, and says which check and which call were asked for.
fn entered(
    coordinator: &ApplyCoordinator,
    session: SingleSession,
    action: PlannedAction,
) -> (Option<PreflightName>, Option<ExecuteName>, SingleActionApplyResult) {
    let (mut session, mut check, mut call) = (session, None, None);
    let mut planned = Some(plan(vec![action]));
    loop {
        let reply = match session.request() {
            SingleRequest::Lock => SingleReply::Locked { outcome: Ok(None) },
            SingleRequest::Recovery { .. } => unreachable!(),
            SingleRequest::Plan => SingleReply::Planned {
                outcome: Ok(planned.take().unwrap()),
            },
            SingleRequest::OpenExecutor => SingleReply::Opened { error: None },
            SingleRequest::Preflight { call } => {
                check = Some(call.name);
                SingleReply::Preflighted { failure: None }
            }
            SingleRequest::Hash => SingleReply::Hashed {
                outcome: Ok("sha256:0".to_string()),
            },
            SingleRequest::Confirm => SingleReply::Confirmed { accepted: true },
            SingleRequest::Begin => SingleReply::Began {
                outcome: Ok(ActionId::new("a1".to_string())),
            },
            SingleRequest::MarkRunning { .. } => SingleReply::Marked {
                outcome: Ok(record(ActionKind::CreateLink, "a", ActionStatus::Running)),
            },
            SingleRequest::Execute { name, .. } => {
                call = Some(name);
                SingleReply::Executed { error: None }
            }
            SingleRequest::PreflightState
            | SingleRequest::Commit { .. }
            | SingleRequest::Record { .. }
            | SingleRequest::Close => SingleReply::Stored { error: None },
            SingleRequest::Finished => return (check, call, session.finish().unwrap().unwrap()),
        };
        session = coordinator.apply_single_action(session, reply);
    }
}

#[test]
fn each_entry_point_checks_executes_and_commits_its_own_action() {
    let coordinator = ApplyCoordinator::new(path("/h"), path("/state"));
    for (session, action, check, call, kind) in [
        (
            coordinator.apply_stale_link(input(&[])),
            PlannedAction::remove_link(known("a")),
            PreflightName::Remove,
            ExecuteName::RemoveLink,
            ActionKind::RemoveLink,
        ),
        (
            coordinator.apply_stale_link(input(&[])),
            PlannedAction::forget_missing(known("a")),
            PreflightName::ForgetMissing,
            ExecuteName::ForgetMissingLink,
            ActionKind::ForgetMissing,
        ),
        (
            coordinator.apply_replace_link(input(&["a"])),
            PlannedAction::replace_link(desired("a"), elsewhere("base/a", "/s/old", "/h/a"))
                .unwrap(),
            PreflightName::Replace,
            ExecuteName::ReplaceLink,
            ActionKind::ReplaceLink,
        ),
        (
            coordinator.apply_relocate_link(input(&["a"])),
            PlannedAction::relocate_link(desired("a"), elsewhere("base/a", "/s/a", "/h/old"))
                .unwrap(),
            PreflightName::Relocate,
            ExecuteName::RelocateLink,
            ActionKind::RelocateLink,
        ),
    ] {
        let (checked, called, result) = entered(&coordinator, session, action);
        assert_eq!(checked, Some(check));
        assert_eq!(called, Some(call));
        assert!(matches!(
            result,
            SingleActionApplyResult::Applied { resource_id, kind: applied }
                if resource_id.as_str() == "base/a" && applied == kind
        ));
    }
    let (_, _, result) = entered(
        &coordinator,
        coordinator.apply_replace_ownership(input(&["a"])),
        PlannedAction::replace_ownership(desired("a"), elsewhere("base/old", "/s/a", "/h/a"))
            .unwrap(),
    );
    assert!(matches!(
        result,
        SingleActionApplyResult::Applied { kind: ActionKind::ReplaceOwnership, .. }
    ));
}

#[test]
fn a_stale_check_refuses_any_other_action() {
    assert_eq!(
        preflight_stale_action(&PlannedAction::remove_link(known("a"))).unwrap(),
        PreflightName::Remove
    );
    assert_eq!(
        preflight_stale_action(&PlannedAction::forget_missing(known("a"))).unwrap(),
        PreflightName::ForgetMissing
    );
    assert!(matches!(
        preflight_stale_action(&create("a")),
        Err(StaleLinkExecutionError::UnsupportedAction {
            kind: ActionKind::CreateLink
        })
    ));
}

#[test]
fn a_request_resolves_to_its_input_or_an_error() {
    let resolved = resolve_request(Resolution::Resolved(input(&["a"]))).unwrap();
    assert_eq!(resolved.verified_sources.len(), 1);
    assert!(matches!(
        resolve_request(Resolution::Unconfigured(QueryError::ConfigField(
            "x".to_string()
        ))),
        Err(QueryError::ConfigField(field)) if field == "x"
    ));
}
