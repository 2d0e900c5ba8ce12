//! The application of a whole plan, one outside step at a time.
//!
//! An interrupted operation is reconciled before any declaration is read. Nothing is written
//! before every action has passed its check and the plan has been confirmed.

use vstd::prelude::*;
use crate::application::dispatch::{
    can_execute, execute, failed_check, is_call_for, is_check_for, is_verified, lacks_source,
    preflight, preflight_error, source_is_the_first_verified_one, source_views, ExecuteCall,
    PreflightCall, PreflightFailure, ResolvedApplyInput, SourceView,
};
use crate::application::errors::{ApplyError, ResourceExecutionError};
use crate::application::execution::{
    execute_resource_actions, execution_start, execution_starts_sound, execution_stays_sound,
    id_views, paired, ExecutionPhaseView, ExecutionReply, ExecutionRequest, ExecutionSession,
    ExecutionView, ItemView,
};
use crate::application::queries::{
    plan_request, planning_start, PlanningSession, QueryError, Resolution,
};
use crate::application::reconcile::{
    affected_view, reconcile_active_operation, reconcile_active_operation_with_action,
    reconcile_active_operation_with_action_and_cleanup, recovery_start, recovery_starts_sound,
    recovery_stays_sound, ApplyAction, ApplyActionView, PhaseView, RecoveryReply, RecoveryRequest,
    RecoverySession, RecoveryView,
};
use crate::domain::effects::EffectView;
use crate::domain::ids::FullyQualifiedResourceId;
use crate::domain::plan::{
    action_views, ActionKind, ActionView, Plan, PlanView, PlannedResourceAction,
};
use crate::state::operation::{entry_views, ActionId, RecordedEntry};
use crate::state::repository::{CommitFailureEffect, OperationOutcome, StateRepositoryError};

verus! {

/// Where an apply was when it stopped.
#[derive(Clone, Copy, Debug, PartialEq, Eq, Structural)]
pub enum ApplyStage {
    LockAndState,
    Recovery,
    Resolution,
    Planning,
    Preflight,
    OperationCreation,
    Execution,
    Closure,
}

/// What stopped an apply: its own lifecycle, or its input.
#[derive(Debug, PartialEq, Eq)]
pub enum ApplyFailureCause {
    Lifecycle(ApplyError),
    Input(QueryError),
}

/// An apply that stopped.
#[derive(Debug)]
pub struct ApplyFailure {
    pub stage: ApplyStage,
    pub cause: ApplyFailureCause,
    pub affected_action: Option<ApplyAction>,
    /// Nothing when the lock or the state could not be had.
    pub operation: Option<OperationOutcome>,
    /// What a commit that failed left on disk.
    pub commit_failure: Option<CommitFailureEffect>,
    /// The resources whose success was committed.
    pub committed: Vec<FullyQualifiedResourceId>,
    pub plan: Option<Plan>,
}

/// An apply that came to an end of its own.
#[derive(Debug)]
pub enum ApplyReport {
    Applied { plan: Plan, committed: Vec<FullyQualifiedResourceId> },
    Blocked { plan: Plan },
    Declined { plan: Plan },
}

/// What the cause of a failure says of the last commit.
pub open spec fn commit_effect(cause: ApplyFailureCause) -> Option<CommitFailureEffect> {
    match cause {
        ApplyFailureCause::Lifecycle(
            ApplyError::State(StateRepositoryError::Commit { effect, .. }),
        ) => Some(effect),
        _ => None,
    }
}

/// The report on an action that is not on record yet.
pub open spec fn planned_report(action: ActionView) -> ApplyActionView {
    ApplyActionView { action_id: None, resource_id: action.resource_id(), kind: action.kind() }
}

/// The actions that do something, in order.
pub open spec fn working(actions: Seq<ActionView>) -> Seq<ActionView>
    decreases actions.len(),
{
    if actions.len() == 0 {
        Seq::empty()
    } else if actions.last() is Noop {
        working(actions.drop_last())
    } else {
        working(actions.drop_last()).push(actions.last())
    }
}

/// Actions paired with their identities, as far as both lists go.
pub open spec fn numbered(actions: Seq<ActionView>, ids: Seq<ActionId>) -> Seq<ItemView> {
    Seq::new(
        if actions.len() <= ids.len() {
            actions.len()
        } else {
            ids.len()
        },
        |i: int| ItemView { id: ids[i]@, action: actions[i] },
    )
}

/// The resources of a list of actions, in order.
pub open spec fn resources_of(actions: Seq<ActionView>) -> Seq<Seq<char>> {
    Seq::new(actions.len(), |i: int| actions[i].resource_id())
}

/// What an apply needs next.
#[derive(Debug)]
pub enum ApplyRequest {
    /// The exclusive lock, and the state under it.
    Lock,
    /// A step of the reconciliation of the active operation.
    Recovery { request: RecoveryRequest },
    /// The declarations read and resolved.
    Resolve,
    /// The targets observed and a plan made of what is desired, recorded and observed.
    Plan,
    /// The executors of the home directory.
    OpenExecutors,
    /// One action of the plan checked.
    Preflight { index: usize, call: PreflightCall },
    /// The state checked to be writable.
    PreflightState,
    /// The hash of what is desired.
    Hash,
    /// The plan confirmed.
    Confirm,
    /// The operation put on record.
    Begin,
    /// A step of the execution. To execute an action is to make the call, or to answer with the
    /// error that stands in its place.
    Execution {
        request: ExecutionRequest,
        call: Option<Result<ExecuteCall, ResourceExecutionError>>,
    },
    /// The finished operation closed.
    Close,
    /// What the repository holds of the operation.
    ReadOutcome,
    /// Nothing more.
    Finished,
}

/// The answer to a request.
#[derive(Debug)]
pub enum ApplyReply {
    Locked { outcome: Result<Option<Vec<RecordedEntry>>, StateRepositoryError> },
    Recovery { reply: RecoveryReply },
    Resolved { resolution: Resolution<ResolvedApplyInput> },
    Planned { outcome: Result<Plan, String> },
    Opened { error: Option<String> },
    Preflighted { failure: Option<PreflightFailure> },
    Stored { error: Option<StateRepositoryError> },
    Hashed { outcome: Result<String, String> },
    Confirmed { accepted: bool },
    Began { outcome: Result<Vec<ActionId>, StateRepositoryError> },
    Execution { reply: ExecutionReply },
    Outcome { operation: OperationOutcome },
}

/// How an apply ended.
#[derive(Debug)]
pub enum ApplyEnd {
    Applied,
    Blocked,
    Declined,
    Failed { cause: ApplyFailureCause, operation: Option<OperationOutcome> },
}

/// Where an apply stands.
pub enum ApplyPhaseView {
    Locking,
    Recovering { session: RecoveryView },
    Resolving,
    Planning,
    OpeningExecutors,
    Preflighting { index: int },
    CheckingState,
    Hashing,
    Confirming { hash: Seq<char> },
    Beginning { hash: Seq<char>, actions: Seq<ActionView> },
    Executing { session: ExecutionView },
    Closing,
    Failing { cause: ApplyFailureCause },
    Ended { end: ApplyEnd },
}

/// An apply: where it stands and what it has come to know.
pub struct ApplyView {
    pub phase: ApplyPhaseView,
    pub stage: ApplyStage,
    pub locked: bool,
    /// The root profile and the desired resources, once they have been resolved.
    pub desired: Option<(Seq<char>, Seq<EffectView>)>,
    pub sources: Option<Seq<SourceView>>,
    pub plan: Option<PlanView>,
    pub affected: Option<ApplyActionView>,
    pub committed: Seq<Seq<char>>,
}

/// An apply at its start.
pub open spec fn apply_start() -> ApplyView {
    ApplyView {
        phase: ApplyPhaseView::Locking,
        stage: ApplyStage::LockAndState,
        locked: false,
        desired: None,
        sources: None,
        plan: None,
        affected: None,
        committed: Seq::empty(),
    }
}

impl ApplyView {
    /// The apply ended.
    pub open spec fn ended(self, end: ApplyEnd) -> ApplyView {
        ApplyView { phase: ApplyPhaseView::Ended { end }, ..self }
    }

    /// The apply stopped. Under the lock, what the repository holds of the operation is still to
    /// be read.
    pub open spec fn failed(self, cause: ApplyFailureCause) -> ApplyView {
        if self.locked {
            ApplyView { phase: ApplyPhaseView::Failing { cause }, ..self }
        } else {
            self.ended(ApplyEnd::Failed { cause, operation: None })
        }
    }

    /// The apply stopped by its own lifecycle.
    pub open spec fn stopped(self, error: ApplyError) -> ApplyView {
        self.failed(ApplyFailureCause::Lifecycle(error))
    }

    /// The apply gone on to a phase of the same stage.
    pub open spec fn at(self, phase: ApplyPhaseView) -> ApplyView {
        ApplyView { phase, ..self }
    }

    /// The apply with a reconciliation: gone on once that has ended with nothing left open.
    pub open spec fn recovering(self, session: RecoveryView) -> ApplyView {
        match session.phase {
            PhaseView::Ended { uncertain } => {
                let next = ApplyView { affected: session.affected, ..self };
                if uncertain {
                    next.stopped(ApplyError::RecoveryRequired)
                } else {
                    ApplyView {
                        phase: ApplyPhaseView::Resolving,
                        stage: ApplyStage::Resolution,
                        ..next
                    }
                }
            },
            PhaseView::Failed { error } => ApplyView {
                affected: session.affected,
                ..self
            }.stopped(ApplyError::State(error)),
            _ => self.at(ApplyPhaseView::Recovering { session }),
        }
    }

    /// The apply come to the check of an action, or past the last one.
    pub open spec fn checking(self, index: int) -> ApplyView {
        if index >= self.plan->0.actions.len() {
            ApplyView { affected: None, ..self }.at(ApplyPhaseView::CheckingState)
        } else {
            let here = ApplyView {
                affected: Some(planned_report(self.plan->0.actions[index])),
                ..self
            };
            here.at(ApplyPhaseView::Preflighting { index })
        }
    }

    /// Whether the action to be checked lacks a source.
    pub open spec fn lacks(self, index: int) -> bool {
        lacks_source(self.plan->0.actions[index], self.sources->0)
    }

    /// The apply with a confirmed plan: with nothing to do, it is done.
    pub open spec fn confirmed(self, hash: Seq<char>) -> ApplyView {
        let actions = working(self.plan->0.actions);
        if actions.len() == 0 {
            self.ended(ApplyEnd::Applied)
        } else {
            ApplyView {
                phase: ApplyPhaseView::Beginning { hash, actions },
                stage: ApplyStage::OperationCreation,
                ..self
            }
        }
    }

    /// The apply with an execution: gone on once that has ended.
    pub open spec fn executing(self, session: ExecutionView) -> ApplyView {
        match session.phase {
            ExecutionPhaseView::Ended { outcome } => {
                let next = ApplyView {
                    stage: ApplyStage::Execution,
                    affected: session.affected,
                    committed: session.committed,
                    ..self
                };
                match outcome {
                    Ok(_) => ApplyView {
                        phase: ApplyPhaseView::Closing,
                        stage: ApplyStage::Closure,
                        ..next
                    },
                    Err(error) => next.stopped(error),
                }
            },
            _ => ApplyView {
                phase: ApplyPhaseView::Executing { session },
                stage: ApplyStage::Execution,
                ..self
            },
        }
    }

    /// Whether an apply after an answer is what it has to be. An answer to another question
    /// changes nothing.
    pub open spec fn answered(self, reply: ApplyReply, next: ApplyView) -> bool {
        match (self.phase, reply) {
            (ApplyPhaseView::Locking, ApplyReply::Locked { outcome }) => match outcome {
                Err(error) => next == self.stopped(ApplyError::State(error)),
                Ok(entries) => next == ApplyView {
                    locked: true,
                    stage: ApplyStage::Recovery,
                    ..self
                }.recovering(
                    recovery_start(
                        match entries {
                            Some(entries) => Some(entry_views(entries@)),
                            None => None,
                        },
                    ),
                ),
            },
            (ApplyPhaseView::Recovering { session }, ApplyReply::Recovery { reply }) => next
                == self.recovering(session.answered(reply)),
            (ApplyPhaseView::Resolving, ApplyReply::Resolved { resolution }) =>
                match resolution.settled() {
                Err(error) => next == self.failed(ApplyFailureCause::Input(error)),
                Ok(input) => next == ApplyView {
                    phase: ApplyPhaseView::Planning,
                    stage: ApplyStage::Planning,
                    desired: Some((input.desired.profile(), input.desired@)),
                    sources: Some(source_views(input.verified_sources@)),
                    ..self
                },
            },
            (ApplyPhaseView::Planning, ApplyReply::Planned { outcome }) => match outcome {
                Err(message) => next == self.stopped(ApplyError::InitialInspection { message }),
                Ok(plan) => next == {
                    let planned = ApplyView { plan: Some(plan@), ..self };
                    if plan@.executable() {
                        ApplyView {
                            phase: ApplyPhaseView::OpeningExecutors,
                            stage: ApplyStage::Preflight,
                            ..planned
                        }
                    } else {
                        planned.ended(ApplyEnd::Blocked)
                    }
                },
            },
            (ApplyPhaseView::OpeningExecutors, ApplyReply::Opened { error }) => match error {
                Some(message) => next == self.stopped(ApplyError::InitialInspection { message }),
                None => self.comes_to_check(0, next),
            },
            (ApplyPhaseView::Preflighting { index }, ApplyReply::Preflighted { failure }) =>
                match failure {
                Some(failure) => next == self.stopped(failed_check(failure)),
                None => self.comes_to_check(index + 1, next),
            },
            (ApplyPhaseView::CheckingState, ApplyReply::Stored { error }) => match error {
                Some(error) => next == self.stopped(ApplyError::StatePreflight(error)),
                None => next == self.at(ApplyPhaseView::Hashing),
            },
            (ApplyPhaseView::Hashing, ApplyReply::Hashed { outcome }) => match outcome {
                Err(message) => next == self.stopped(ApplyError::DesiredHash { message }),
                Ok(hash) => next == self.at(ApplyPhaseView::Confirming { hash: hash@ }),
            },
            (ApplyPhaseView::Confirming { hash }, ApplyReply::Confirmed { accepted }) =>
                if accepted {
                    next == self.confirmed(hash)
                } else {
                    next == self.ended(ApplyEnd::Declined)
                },
            (ApplyPhaseView::Beginning { actions, .. }, ApplyReply::Began { outcome }) =>
                match outcome {
                Err(error) => next == self.stopped(ApplyError::State(error)),
                Ok(ids) => next == self.executing(execution_start(numbered(actions, ids@))),
            },
            (ApplyPhaseView::Executing { session }, ApplyReply::Execution { reply }) => next
                == self.executing(session.answered(reply)),
            (ApplyPhaseView::Closing, ApplyReply::Stored { error }) => match error {
                Some(error) => next == self.stopped(ApplyError::State(error)),
                None => next == self.ended(ApplyEnd::Applied),
            },
            (ApplyPhaseView::Failing { cause }, ApplyReply::Outcome { operation }) => next
                == self.ended(ApplyEnd::Failed { cause, operation: Some(operation) }),
            _ => next == self,
        }
    }

    /// Whether an apply that has come to the check of an action is what it has to be: an action
    /// that lacks its source stops it there.
    pub open spec fn comes_to_check(self, index: int, next: ApplyView) -> bool {
        let here = self.checking(index);
        if index < self.plan->0.actions.len() && self.lacks(index) {
            exists|error: ApplyError|
                {
                    &&& #[trigger] here.stopped(error) == next
                    &&& error matches ApplyError::MissingVerifiedSource { resource_id }
                        && resource_id@ == self.plan->0.actions[index].resource_id()
                }
        } else {
            next == here
        }
    }

    /// Whether a request is what the apply needs next.
    pub open spec fn requests(self, request: ApplyRequest) -> bool {
        match self.phase {
            ApplyPhaseView::Locking => request is Lock,
            ApplyPhaseView::Recovering { session } => request matches ApplyRequest::Recovery {
                request,
            } && session.requests(request),
            ApplyPhaseView::Resolving => request is Resolve,
            ApplyPhaseView::Planning => request is Plan,
            ApplyPhaseView::OpeningExecutors => request is OpenExecutors,
            ApplyPhaseView::Preflighting { index } => request matches ApplyRequest::Preflight {
                index: asked,
                call,
            } && asked == index && is_check_for(
                call,
                self.plan->0.actions[index],
                self.sources->0,
            ),
            ApplyPhaseView::CheckingState => request is PreflightState,
            ApplyPhaseView::Hashing => request is Hash,
            ApplyPhaseView::Confirming { .. } => request is Confirm,
            ApplyPhaseView::Beginning { .. } => request is Begin,
            ApplyPhaseView::Executing { session } => request matches ApplyRequest::Execution {
                request,
                call,
            } && session.requests(request) && match request {
                ExecutionRequest::Execute { .. } => match call {
                    Some(Ok(call)) => is_call_for(
                        call,
                        session.items[session.index].action,
                        self.sources->0,
                    ) && can_execute(session.items[session.index].action, self.sources->0),
                    Some(Err(error)) => error is InvalidEffectHandoff && !can_execute(
                        session.items[session.index].action,
                        self.sources->0,
                    ),
                    None => false,
                },
                _ => call is None,
            },
            ApplyPhaseView::Closing => request is Close,
            ApplyPhaseView::Failing { .. } => request is ReadOutcome,
            ApplyPhaseView::Ended { .. } => request is Finished,
        }
    }

    /// Whether the apply has an executable plan.
    pub open spec fn may_execute(self) -> bool {
        self.plan is Some && self.plan->0.executable() && self.desired is Some
    }

    /// Whether the committed resources are those of the first actions that do something.
    pub open spec fn commits_in_order(self) -> bool {
        self.committed.len() > 0 ==> {
            &&& self.plan is Some
            &&& self.committed.len() <= resources_of(working(self.plan->0.actions)).len()
            &&& self.committed == resources_of(working(self.plan->0.actions)).take(
                self.committed.len() as int,
            )
        }
    }

    /// What every apply keeps.
    ///
    /// Nothing is planned, checked, confirmed or executed before something is desired, nor checked,
    /// confirmed or executed without an executable plan. Nothing is committed before the execution,
    /// and what is committed are the resources of the first actions that do something. The stage
    /// that a failure names is where it happened.
    pub open spec fn sound(self) -> bool {
        &&& self.commits_in_order()
        &&& (self.desired is Some) == (self.sources is Some)
        &&& match self.phase {
            ApplyPhaseView::Locking => self == apply_start(),
            ApplyPhaseView::Recovering { session } => {
                &&& session.sound()
                &&& session.phase !is Ended
                &&& session.phase !is Failed
                &&& self.locked
                &&& self.stage is Recovery
                &&& self.desired is None
                &&& self.plan is None
                &&& self.committed.len() == 0
                &&& self.affected is None
            },
            ApplyPhaseView::Resolving => {
                &&& self.locked
                &&& self.stage is Resolution
                &&& self.desired is None
                &&& self.plan is None
                &&& self.committed.len() == 0
                &&& self.affected is None
            },
            ApplyPhaseView::Planning => {
                &&& self.locked
                &&& self.stage is Planning
                &&& self.desired is Some
                &&& self.plan is None
                &&& self.committed.len() == 0
                &&& self.affected is None
            },
            ApplyPhaseView::Preflighting { index } => {
                &&& self.locked
                &&& self.stage is Preflight
                &&& self.may_execute()
                &&& self.committed.len() == 0
                &&& 0 <= index < self.plan->0.actions.len()
                &&& !self.lacks(index)
                &&& self.affected == Some(planned_report(self.plan->0.actions[index]))
            },
            ApplyPhaseView::OpeningExecutors | ApplyPhaseView::CheckingState
            | ApplyPhaseView::Hashing | ApplyPhaseView::Confirming { .. } => {
                &&& self.locked
                &&& self.stage is Preflight
                &&& self.may_execute()
                &&& self.committed.len() == 0
                &&& self.affected is None
            },
            ApplyPhaseView::Beginning { actions, .. } => {
                &&& self.locked
                &&& self.stage is OperationCreation
                &&& self.may_execute()
                &&& self.committed.len() == 0
                &&& self.affected is None
                &&& actions == working(self.plan->0.actions)
                &&& actions.len() > 0
            },
            ApplyPhaseView::Executing { session } => {
                &&& self.locked
                &&& self.stage is Execution
                &&& self.may_execute()
                &&& self.committed.len() == 0
                &&& session.sound()
                &&& session.phase !is Ended
                &&& session.items.len() <= working(self.plan->0.actions).len()
                &&& forall|i: int|
                    0 <= i < session.items.len() ==> (#[trigger] session.items[i]).action
                        == working(self.plan->0.actions)[i]
            },
            ApplyPhaseView::Closing => self.locked && self.stage is Closure && self.may_execute()
                && self.affected is None,
            ApplyPhaseView::Failing { .. } => self.locked && self.stage !is LockAndState,
            ApplyPhaseView::Ended { end } => match end {
                ApplyEnd::Applied => self.may_execute() && self.affected is None,
                ApplyEnd::Blocked => self.plan is Some && !self.plan->0.executable()
                    && self.committed.len() == 0,
                ApplyEnd::Declined => self.may_execute() && self.committed.len() == 0,
                ApplyEnd::Failed { operation, .. } => (operation is Some) == self.locked && (
                self.stage is LockAndState) == !self.locked,
            },
        }
    }
}

/// An apply starts sound.
pub proof fn apply_starts_sound()
    ensures
        apply_start().sound(),
{
}

proof fn lemma_recovering_sound(apply: ApplyView, session: RecoveryView)
    requires
        session.sound(),
        apply.locked,
        apply.stage is Recovery,
        apply.desired is None,
        apply.sources is None,
        apply.plan is None,
        apply.committed.len() == 0,
        apply.affected is None,
    ensures
        apply.recovering(session).sound(),
{
}

/// The actions that do something really do.
pub proof fn lemma_working(actions: Seq<ActionView>)
    ensures
        forall|i: int| 0 <= i < working(actions).len() ==> (#[trigger] working(actions)[i]) !is Noop,
    decreases actions.len(),
{
    if actions.len() > 0 {
        lemma_working(actions.drop_last());
    }
}

proof fn lemma_executing_sound(apply: ApplyView, session: ExecutionView)
    requires
        session.sound(),
        apply.locked,
        apply.may_execute(),
        apply.sources is Some,
        apply.committed.len() == 0,
        session.items.len() <= working(apply.plan->0.actions).len(),
        forall|i: int|
            0 <= i < session.items.len() ==> (#[trigger] session.items[i]).action == working(
                apply.plan->0.actions,
            )[i],
    ensures
        apply.executing(session).sound(),
{
    let all = resources_of(working(apply.plan->0.actions));
    assert(session.committed =~= all.take(session.committed.len() as int)) by {
        assert forall|i: int| 0 <= i < session.committed.len() implies session.committed[i]
            == all[i] by {
            assert(session.items[i].action == working(apply.plan->0.actions)[i]);
        }
    }
}

/// Every apply keeps what it promises, whatever it is answered.
pub proof fn apply_stays_sound(apply: ApplyView, reply: ApplyReply, next: ApplyView)
    requires
        apply.sound(),
        apply.answered(reply, next),
    ensures
        next.sound(),
{
    match (apply.phase, reply) {
        (ApplyPhaseView::Locking, ApplyReply::Locked { outcome }) => {
            if let Ok(entries) = outcome {
                let views = match entries {
                    Some(entries) => Some(entry_views(entries@)),
                    None => None,
                };
                recovery_starts_sound(views);
                lemma_recovering_sound(
                    ApplyView { locked: true, stage: ApplyStage::Recovery, ..apply },
                    recovery_start(views),
                );
            }
        },
        (ApplyPhaseView::Recovering { session }, ApplyReply::Recovery { reply }) => {
            recovery_stays_sound(session, reply);
            lemma_recovering_sound(apply, session.answered(reply));
        },
        (ApplyPhaseView::Beginning { actions, .. }, ApplyReply::Began { outcome }) => {
            if let Ok(ids) = outcome {
                let items = numbered(actions, ids@);
                lemma_working(apply.plan->0.actions);
                assert forall|i: int| 0 <= i < items.len() implies (#[trigger] items[i]).action
                    !is Noop by {
                    assert(items[i].action == actions[i]);
                }
                execution_starts_sound(items);
                lemma_executing_sound(apply, execution_start(items));
            }
        },
        (ApplyPhaseView::Executing { session }, ApplyReply::Execution { reply }) => {
            execution_stays_sound(session, reply);
            lemma_executing_sound(apply, session.answered(reply));
        },
        _ => {},
    }
}

/// Nothing is put on record before the plan has been confirmed.
pub proof fn operation_begins_only_when_confirmed(
    apply: ApplyView,
    reply: ApplyReply,
    next: ApplyView,
)
    requires
        apply.sound(),
        apply.answered(reply, next),
        next.phase is Beginning,
        apply.phase !is Beginning,
    ensures
        apply.phase is Confirming,
        reply == (ApplyReply::Confirmed { accepted: true }),
{
}

/// An action is executed only under an operation that is on record.
pub proof fn execution_follows_the_record(apply: ApplyView, reply: ApplyReply, next: ApplyView)
    requires
        apply.sound(),
        apply.answered(reply, next),
        next.phase is Executing,
        apply.phase !is Executing,
    ensures
        apply.phase is Beginning,
        reply matches ApplyReply::Began { outcome } && outcome is Ok,
{
}

/// The plan is put to confirmation only after the last action has passed its check, and the
/// actions are checked one after the other.
pub proof fn every_action_is_checked_in_turn(apply: ApplyView, reply: ApplyReply, next: ApplyView)
    requires
        apply.sound(),
        apply.answered(reply, next),
        next.phase != apply.phase,
        next.phase is Preflighting || next.phase is CheckingState,
    ensures
        ({
            let reached = match next.phase {
                ApplyPhaseView::Preflighting { index } => index,
                _ => next.plan->0.actions.len() as int,
            };
            match apply.phase {
                ApplyPhaseView::OpeningExecutors => reached == 0,
                ApplyPhaseView::Preflighting { index } => reached == index + 1 && reply == (
                ApplyReply::Preflighted { failure: None }),
                _ => false,
            }
        }),
{
}

/// Confirmation is asked for only after the state was found writable and the hash was computed.
pub proof fn confirmation_follows_the_checks(apply: ApplyView, reply: ApplyReply, next: ApplyView)
    requires
        apply.sound(),
        apply.answered(reply, next),
        next.phase is Confirming || next.phase is Hashing,
        next.phase != apply.phase,
    ensures
        next.phase is Confirming ==> apply.phase is Hashing,
        next.phase is Hashing ==> apply.phase is CheckingState && reply == (ApplyReply::Stored {
            error: None,
        }),
{
}

/// No declaration is read before the active operation has been reconciled.
pub proof fn recovery_precedes_resolution(apply: ApplyView, reply: ApplyReply, next: ApplyView)
    requires
        apply.sound(),
        apply.answered(reply, next),
        next.phase is Resolving,
        apply.phase !is Resolving,
    ensures
        match apply.phase {
            ApplyPhaseView::Locking => reply matches ApplyReply::Locked { outcome: Ok(None) },
            ApplyPhaseView::Recovering { session } => reply matches ApplyReply::Recovery {
                reply,
            } && session.answered(reply).phase == (PhaseView::Ended { uncertain: false }),
            _ => false,
        },
{
}

/// What has been resolved is what is applied: no answer changes the desired resources or their
/// sources once they are there.
pub proof fn resolved_input_stays(apply: ApplyView, reply: ApplyReply, next: ApplyView)
    requires
        apply.sound(),
        apply.answered(reply, next),
        apply.desired is Some,
    ensures
        next.desired == apply.desired,
        next.sources == apply.sources,
{
}

/// Whether every action that does something has its identity as far as an apply has come, and is
/// committed once all have been executed.
pub open spec fn complete(apply: ApplyView) -> bool {
    match apply.phase {
        ApplyPhaseView::Executing { session } => session.items.len() == working(
            apply.plan->0.actions,
        ).len(),
        ApplyPhaseView::Closing => apply.committed == resources_of(working(apply.plan->0.actions)),
        ApplyPhaseView::Ended { end: ApplyEnd::Applied } => apply.committed == resources_of(
            working(apply.plan->0.actions),
        ),
        _ => true,
    }
}

/// Whether an answer to a request to put an operation on record gives every action an identity.
pub open spec fn identifies(apply: ApplyView, reply: ApplyReply) -> bool {
    match (apply.phase, reply) {
        (
            ApplyPhaseView::Beginning { actions, .. },
            ApplyReply::Began { outcome: Ok(ids) },
        ) => ids@.len() >= actions.len(),
        _ => true,
    }
}

proof fn lemma_executing_complete(apply: ApplyView, session: ExecutionView)
    requires
        session.sound(),
        apply.locked,
        apply.plan is Some,
        session.items.len() == working(apply.plan->0.actions).len(),
        forall|i: int|
            0 <= i < session.items.len() ==> (#[trigger] session.items[i]).action == working(
                apply.plan->0.actions,
            )[i],
    ensures
        complete(apply.executing(session)),
{
    let all = resources_of(working(apply.plan->0.actions));
    if session.phase is Ended && session.phase->outcome is Ok {
        assert(session.committed =~= all) by {
            assert forall|i: int| 0 <= i < all.len() implies session.committed[i] == all[i] by {
                assert(session.items[i].action == working(apply.plan->0.actions)[i]);
            }
        }
    }
}

proof fn lemma_stays_complete(apply: ApplyView, reply: ApplyReply, next: ApplyView)
    requires
        apply.sound(),
        complete(apply),
        apply.answered(reply, next),
        identifies(apply, reply),
    ensures
        complete(next),
{
    match (apply.phase, reply) {
        (ApplyPhaseView::Confirming { .. }, ApplyReply::Confirmed { .. }) => {
            if next.phase is Ended {
                assert(apply.committed =~= resources_of(Seq::<ActionView>::empty()));
                assert(working(apply.plan->0.actions).len() == 0 ==> working(apply.plan->0.actions)
                    =~= Seq::<ActionView>::empty());
            }
        },
        (ApplyPhaseView::Beginning { actions, .. }, ApplyReply::Began { outcome }) => {
            if let Ok(ids) = outcome {
                let items = numbered(actions, ids@);
                lemma_working(apply.plan->0.actions);
                assert forall|i: int| 0 <= i < items.len() implies (#[trigger] items[i]).action
                    == actions[i] by {}
                assert forall|i: int| 0 <= i < items.len() implies (#[trigger] items[i]).action
                    !is Noop by {
                    assert(items[i].action == actions[i]);
                }
                execution_starts_sound(items);
                lemma_executing_complete(apply, execution_start(items));
            }
        },
        (ApplyPhaseView::Executing { session }, ApplyReply::Execution { reply }) => {
            execution_stays_sound(session, reply);
            lemma_executing_complete(apply, session.answered(reply));
        },
        _ => {},
    }
}

/// Whether a list of applies is a run: it starts at the start, and each follows from the one before
/// by an answer.
pub open spec fn is_run(run: Seq<ApplyView>, replies: Seq<ApplyReply>) -> bool {
    &&& run.len() == replies.len() + 1
    &&& run[0] == apply_start()
    &&& forall|i: int|
        0 <= i < replies.len() ==> run[i].answered(#[trigger] replies[i], run[i + 1])
}

/// An apply that ends as applied has committed every action of its plan that does something, in
/// order and no other, when every such action got an identity.
pub proof fn applied_run_commits_every_action(run: Seq<ApplyView>, replies: Seq<ApplyReply>)
    requires
        is_run(run, replies),
        forall|i: int| 0 <= i < replies.len() ==> identifies(run[i], #[trigger] replies[i]),
        run.last().phase == (ApplyPhaseView::Ended { end: ApplyEnd::Applied }),
    ensures
        run.last().plan is Some,
        run.last().committed == resources_of(working(run.last().plan->0.actions)),
{
    lemma_run(run, replies, replies.len() as int);
}

proof fn lemma_run(run: Seq<ApplyView>, replies: Seq<ApplyReply>, n: int)
    requires
        is_run(run, replies),
        forall|i: int| 0 <= i < replies.len() ==> identifies(run[i], #[trigger] replies[i]),
        0 <= n <= replies.len(),
    ensures
        run[n].sound(),
        complete(run[n]),
    decreases n,
{
    if n > 0 {
        lemma_run(run, replies, n - 1);
        assert(run[n - 1].answered(replies[n - 1], run[n]));
        apply_stays_sound(run[n - 1], replies[n - 1], run[n]);
        lemma_stays_complete(run[n - 1], replies[n - 1], run[n]);
    }
}

/// The application of one request.
#[derive(Debug)]
pub struct ApplySession {
    phase: ApplyPhase,
    stage: ApplyStage,
    locked: bool,
    input: Option<ResolvedApplyInput>,
    plan: Option<Plan>,
    affected: Option<ApplyAction>,
    committed: Vec<FullyQualifiedResourceId>,
}

#[derive(Debug)]
enum ApplyPhase {
    Locking,
    Recovering { session: RecoverySession },
    Resolving,
    Planning,
    OpeningExecutors,
    Preflighting { index: usize },
    CheckingState,
    Hashing,
    Confirming { hash: String },
    Beginning { hash: String, actions: Vec<PlannedResourceAction> },
    Executing { session: ExecutionSession },
    Closing,
    Failing { cause: ApplyFailureCause },
    Ended { end: ApplyEnd },
}

spec fn phase_view(phase: ApplyPhase) -> ApplyPhaseView {
    match phase {
        ApplyPhase::Locking => ApplyPhaseView::Locking,
        ApplyPhase::Recovering { session } => ApplyPhaseView::Recovering { session: session@ },
        ApplyPhase::Resolving => ApplyPhaseView::Resolving,
        ApplyPhase::Planning => ApplyPhaseView::Planning,
        ApplyPhase::OpeningExecutors => ApplyPhaseView::OpeningExecutors,
        ApplyPhase::Preflighting { index } => ApplyPhaseView::Preflighting { index: index as int },
        ApplyPhase::CheckingState => ApplyPhaseView::CheckingState,
        ApplyPhase::Hashing => ApplyPhaseView::Hashing,
        ApplyPhase::Confirming { hash } => ApplyPhaseView::Confirming { hash: hash@ },
        ApplyPhase::Beginning { hash, actions } => ApplyPhaseView::Beginning {
            hash: hash@,
            actions: action_views(actions@),
        },
        ApplyPhase::Executing { session } => ApplyPhaseView::Executing { session: session@ },
        ApplyPhase::Closing => ApplyPhaseView::Closing,
        ApplyPhase::Failing { cause } => ApplyPhaseView::Failing { cause },
        ApplyPhase::Ended { end } => ApplyPhaseView::Ended { end },
    }
}

spec fn view_of(
    phase: ApplyPhase,
    stage: ApplyStage,
    locked: bool,
    input: Option<ResolvedApplyInput>,
    plan: Option<Plan>,
    affected: Option<ApplyAction>,
    committed: Seq<FullyQualifiedResourceId>,
) -> ApplyView {
    ApplyView {
        phase: phase_view(phase),
        stage,
        locked,
        desired: match input {
            Some(input) => Some((input.desired.profile(), input.desired@)),
            None => None,
        },
        sources: match input {
            Some(input) => Some(source_views(input.verified_sources@)),
            None => None,
        },
        plan: match plan {
            Some(plan) => Some(plan@),
            None => None,
        },
        affected: affected_view(affected),
        committed: id_views(committed),
    }
}

impl View for ApplySession {
    type V = ApplyView;

    closed spec fn view(&self) -> ApplyView {
        view_of(
            self.phase,
            self.stage,
            self.locked,
            self.input,
            self.plan,
            self.affected,
            self.committed@,
        )
    }
}

/// Starts the application of a request: no declaration is read before recovery.
pub fn apply_request() -> (session: ApplySession)
    ensures
        session@ == apply_start(),
{
    let committed: Vec<FullyQualifiedResourceId> = Vec::new();
    assert(id_views(committed@) =~= Seq::<Seq<char>>::empty());
    ApplySession {
        phase: ApplyPhase::Locking,
        stage: ApplyStage::LockAndState,
        locked: false,
        input: None,
        plan: None,
        affected: None,
        committed,
    }
}

/// Starts a dry run: it shares only the planning that changes nothing.
pub fn dry_run() -> (session: PlanningSession)
    ensures
        session@ == planning_start(),
{
    plan_request()
}

fn rebuilt(
    phase: ApplyPhase,
    stage: ApplyStage,
    locked: bool,
    input: Option<ResolvedApplyInput>,
    plan: Option<Plan>,
    affected: Option<ApplyAction>,
    committed: Vec<FullyQualifiedResourceId>,
    Ghost(before): Ghost<ApplyView>,
    Ghost(reply): Ghost<ApplyReply>,
) -> (session: ApplySession)
    requires
        before.sound(),
        before.answered(
            reply,
            view_of(phase, stage, locked, input, plan, affected, committed@),
        ),
    ensures
        before.answered(reply, session@),
{
    proof {
        apply_stays_sound(
            before,
            reply,
            view_of(phase, stage, locked, input, plan, affected, committed@),
        );
    }
    ApplySession { phase, stage, locked, input, plan, affected, committed }
}

fn fail(locked: bool, cause: ApplyFailureCause) -> (phase: ApplyPhase)
    ensures
        phase_view(phase) == if locked {
            ApplyPhaseView::Failing { cause }
        } else {
            ApplyPhaseView::Ended { end: ApplyEnd::Failed { cause, operation: None } }
        },
{
    if locked {
        ApplyPhase::Failing { cause }
    } else {
        ApplyPhase::Ended { end: ApplyEnd::Failed { cause, operation: None } }
    }
}

fn to_recovering(session: RecoverySession, Ghost(before): Ghost<ApplyView>) -> (next: (
    ApplyPhase,
    ApplyStage,
    Option<ApplyAction>,
))
    requires
        before.locked,
        before.stage is Recovery,
        before.affected is None,
    ensures
        phase_view(next.0) == before.recovering(session@).phase,
        next.1 == before.recovering(session@).stage,
        affected_view(next.2) == before.recovering(session@).affected,
        before.recovering(session@).locked,
        before.recovering(session@).plan == before.plan,
        before.recovering(session@).desired == before.desired,
        before.recovering(session@).sources == before.sources,
        before.recovering(session@).committed == before.committed,
{
    if !session.has_ended() {
        return (ApplyPhase::Recovering { session }, ApplyStage::Recovery, None);
    }
    match reconcile_active_operation_with_action(session) {
        Some(end) => match end.outcome {
            Ok(uncertain) => if uncertain {
                (
                    fail(true, ApplyFailureCause::Lifecycle(ApplyError::RecoveryRequired)),
                    ApplyStage::Recovery,
                    end.affected,
                )
            } else {
                (ApplyPhase::Resolving, ApplyStage::Resolution, end.affected)
            },
            Err(error) => (
                fail(true, ApplyFailureCause::Lifecycle(ApplyError::State(error))),
                ApplyStage::Recovery,
                end.affected,
            ),
        },
        None => {
            assert(false);
            (ApplyPhase::Locking, ApplyStage::Recovery, None)
        },
    }
}

fn to_check(
    plan: &Plan,
    input: &ResolvedApplyInput,
    index: usize,
    Ghost(before): Ghost<ApplyView>,
) -> (next: (ApplyPhase, Option<ApplyAction>))
    requires
        before.locked,
        before.plan == Some(plan@),
        before.sources == Some(source_views(input.verified_sources@)),
    ensures
        before.comes_to_check(
            index as int,
            ApplyView { phase: phase_view(next.0), affected: affected_view(next.1), ..before },
        ),
{
    let actions = plan.resource_actions();
    if index >= actions.len() {
        return (ApplyPhase::CheckingState, None);
    }
    assert(plan@.actions[index as int] == actions@[index as int]@);
    let affected = Some(
        ApplyAction {
            action_id: None,
            resource_id: actions[index].resource_id().clone(),
            kind: actions[index].kind(),
        },
    );
    match preflight(&actions[index], input) {
        Ok(_) => (ApplyPhase::Preflighting { index }, affected),
        Err(error) => {
            let ghost here = before.checking(index as int);
            let ghost given = error;
            let phase = fail(true, ApplyFailureCause::Lifecycle(error));
            assert(here.stopped(given) == ApplyView {
                phase: phase_view(phase),
                affected: affected_view(affected),
                ..before
            });
            (phase, affected)
        },
    }
}

fn to_working(actions: &Vec<PlannedResourceAction>) -> (list: Vec<PlannedResourceAction>)
    ensures
        action_views(list@) == working(action_views(actions@)),
{
    let ghost all = action_views(actions@);
    let mut list: Vec<PlannedResourceAction> = Vec::new();
    let mut i: usize = 0;
    proof {
        assert(all.take(0) =~= Seq::<ActionView>::empty());
        assert(action_views(list@) =~= Seq::<ActionView>::empty());
    }
    while i < actions.len()
        invariant
            i <= actions@.len(),
            all == action_views(actions@),
            action_views(list@) == working(all.take(i as int)),
        decreases actions.len() - i,
    {
        let ghost before = list@;
        proof {
            assert(all.take(i + 1).drop_last() =~= all.take(i as int));
            assert(all.take(i + 1).last() == actions@[i as int]@);
        }
        let reports_only = match actions[i].kind() {
            ActionKind::Noop => true,
            _ => false,
        };
        if !reports_only {
            list.push(actions[i].clone());
            assert(action_views(list@) =~= action_views(before).push(actions@[i as int]@));
        }
        i += 1;
    }
    assert(all.take(i as int) =~= all);
    list
}

fn to_executing(
    session: ExecutionSession,
    committed: Vec<FullyQualifiedResourceId>,
    affected: Option<ApplyAction>,
    Ghost(before): Ghost<ApplyView>,
) -> (next: (ApplyPhase, ApplyStage, Option<ApplyAction>, Vec<FullyQualifiedResourceId>))
    requires
        before.locked,
        before.committed == id_views(committed@),
        before.affected == affected_view(affected),
    ensures
        before.executing(session@) == (ApplyView {
            phase: phase_view(next.0),
            stage: next.1,
            affected: affected_view(next.2),
            committed: id_views(next.3@),
            ..before
        }),
{
    if !session.has_ended() {
        return (ApplyPhase::Executing { session }, ApplyStage::Execution, affected, committed);
    }
    match session.finish() {
        Some(end) => match end.outcome {
            Ok(_) => (ApplyPhase::Closing, ApplyStage::Closure, end.affected, end.committed),
            Err(error) => (
                fail(true, ApplyFailureCause::Lifecycle(error)),
                ApplyStage::Execution,
                end.affected,
                end.committed,
            ),
        },
        None => {
            assert(false);
            (ApplyPhase::Closing, ApplyStage::Closure, None, committed)
        },
    }
}

/// Takes the answer to the last request: the step of every apply.
pub fn apply_request_with_hooks(session: ApplySession, reply: ApplyReply) -> (next: ApplySession)
    ensures
        session@.answered(reply, next@),
{
    let ghost before = session@;
    let ghost given = reply;
    proof {
        use_type_invariant(&session);
    }
    let ApplySession { phase, stage, locked, input, plan, affected, committed } = session;
    match (phase, reply) {
        (ApplyPhase::Locking, ApplyReply::Locked { outcome }) => {
            match outcome {
                Err(error) => {
                    let phase = fail(
                        locked,
                        ApplyFailureCause::Lifecycle(ApplyError::State(error)),
                    );
                    rebuilt(
                        phase,
                        stage,
                        locked,
                        input,
                        plan,
                        affected,
                        committed,
                        Ghost(before),
                        Ghost(given),
                    )
                },
                Ok(entries) => {
                    let ghost under = ApplyView {
                        locked: true,
                        stage: ApplyStage::Recovery,
                        ..before
                    };
                    let (phase, stage, affected) = to_recovering(
                        reconcile_active_operation(entries),
                        Ghost(under),
                    );
                    rebuilt(
                        phase,
                        stage,
                        true,
                        input,
                        plan,
                        affected,
                        committed,
                        Ghost(before),
                        Ghost(given),
                    )
                },
            }
        },
        (ApplyPhase::Recovering { session }, ApplyReply::Recovery { reply }) => {
            let (phase, stage, affected) = to_recovering(
                reconcile_active_operation_with_action_and_cleanup(session, reply),
                Ghost(before),
            );
            rebuilt(
                phase,
                stage,
                locked,
                input,
                plan,
                affected,
                committed,
                Ghost(before),
                Ghost(given),
            )
        },
        (ApplyPhase::Resolving, ApplyReply::Resolved { resolution }) => {
            match resolution.settle() {
                Err(error) => {
                    let phase = fail(locked, ApplyFailureCause::Input(error));
                    rebuilt(
                        phase,
                        stage,
                        locked,
                        input,
                        plan,
                        affected,
                        committed,
                        Ghost(before),
                        Ghost(given),
                    )
                },
                Ok(resolved) => rebuilt(
                    ApplyPhase::Planning,
                    ApplyStage::Planning,
                    locked,
                    Some(resolved),
                    plan,
                    affected,
                    committed,
                    Ghost(before),
                    Ghost(given),
                ),
            }
        },
        (ApplyPhase::Planning, ApplyReply::Planned { outcome }) => {
            match outcome {
                Err(message) => {
                    let phase = fail(
                        locked,
                        ApplyFailureCause::Lifecycle(ApplyError::InitialInspection { message }),
                    );
                    rebuilt(
                        phase,
                        stage,
                        locked,
                        input,
                        plan,
                        affected,
                        committed,
                        Ghost(before),
                        Ghost(given),
                    )
                },
                Ok(fresh) => {
                    if fresh.is_executable() {
                        rebuilt(
                            ApplyPhase::OpeningExecutors,
                            ApplyStage::Preflight,
                            locked,
                            input,
                            Some(fresh),
                            affected,
                            committed,
                            Ghost(before),
                            Ghost(given),
                        )
                    } else {
                        rebuilt(
                            ApplyPhase::Ended { end: ApplyEnd::Blocked },
                            stage,
                            locked,
                            input,
                            Some(fresh),
                            affected,
                            committed,
                            Ghost(before),
                            Ghost(given),
                        )
                    }
                },
            }
        },
        (ApplyPhase::OpeningExecutors, ApplyReply::Opened { error }) => {
            let (phase, affected) = match error {
                Some(message) => (
                    fail(
                        locked,
                        ApplyFailureCause::Lifecycle(ApplyError::InitialInspection { message }),
                    ),
                    affected,
                ),
                None => match (&plan, &input) {
                    (Some(plan), Some(input)) => to_check(plan, input, 0, Ghost(before)),
                    _ => {
                        assert(false);
                        (ApplyPhase::Locking, None)
                    },
                },
            };
            rebuilt(
                phase,
                stage,
                locked,
                input,
                plan,
                affected,
                committed,
                Ghost(before),
                Ghost(given),
            )
        },
        (ApplyPhase::Preflighting { index }, ApplyReply::Preflighted { failure }) => {
            let (phase, affected) = match failure {
                Some(failure) => (
                    fail(locked, ApplyFailureCause::Lifecycle(preflight_error(failure))),
                    affected,
                ),
                None => match (&plan, &input) {
                    (Some(plan), Some(input)) => {
                        let count: usize = plan.resource_actions().len();
                        assert(index < count);
                        to_check(plan, input, index + 1, Ghost(before))
                    },
                    _ => {
                        assert(false);
                        (ApplyPhase::Locking, None)
                    },
                },
            };
            rebuilt(
                phase,
                stage,
                locked,
                input,
                plan,
                affected,
                committed,
                Ghost(before),
                Ghost(given),
            )
        },
        (ApplyPhase::CheckingState, ApplyReply::Stored { error }) => {
            let phase = match error {
                Some(error) => fail(
                    locked,
                    ApplyFailureCause::Lifecycle(ApplyError::StatePreflight(error)),
                ),
                None => ApplyPhase::Hashing,
            };
            rebuilt(
                phase,
                stage,
                locked,
                input,
                plan,
                affected,
                committed,
                Ghost(before),
                Ghost(given),
            )
        },
        (ApplyPhase::Hashing, ApplyReply::Hashed { outcome }) => {
            let phase = match outcome {
                Err(message) => fail(
                    locked,
                    ApplyFailureCause::Lifecycle(ApplyError::DesiredHash { message }),
                ),
                Ok(hash) => ApplyPhase::Confirming { hash },
            };
            rebuilt(
                phase,
                stage,
                locked,
                input,
                plan,
                affected,
                committed,
                Ghost(before),
                Ghost(given),
            )
        },
        (ApplyPhase::Confirming { hash }, ApplyReply::Confirmed { accepted }) => {
            let (phase, stage) = if accepted {
                let actions = match &plan {
                    Some(plan) => to_working(plan.resource_actions()),
                    None => {
                        assert(false);
                        Vec::new()
                    },
                };
                if actions.len() == 0 {
                    assert(action_views(actions@).len() == 0);
                    (ApplyPhase::Ended { end: ApplyEnd::Applied }, stage)
                } else {
                    assert(action_views(actions@).len() > 0);
                    (ApplyPhase::Beginning { hash, actions }, ApplyStage::OperationCreation)
                }
            } else {
                (ApplyPhase::Ended { end: ApplyEnd::Declined }, stage)
            };
            rebuilt(
                phase,
                stage,
                locked,
                input,
                plan,
                affected,
                committed,
                Ghost(before),
                Ghost(given),
            )
        },
        (ApplyPhase::Beginning { hash, actions }, ApplyReply::Began { outcome }) => {
            match outcome {
                Err(error) => {
                    let phase = fail(
                        locked,
                        ApplyFailureCause::Lifecycle(ApplyError::State(error)),
                    );
                    rebuilt(
                        phase,
                        stage,
                        locked,
                        input,
                        plan,
                        affected,
                        committed,
                        Ghost(before),
                        Ghost(given),
                    )
                },
                Ok(ids) => {
                    proof {
                        let views = action_views(actions@);
                        lemma_working(before.plan->0.actions);
                        assert forall|i: int| 0 <= i < actions@.len() implies (
                        #[trigger] actions@[i])@ !is Noop by {
                            assert(views[i] == actions@[i]@);
                        }
                        assert(paired(actions@, ids@) =~= numbered(views, ids@));
                    }
                    let (phase, stage, affected, committed) = to_executing(
                        execute_resource_actions(actions, ids),
                        committed,
                        affected,
                        Ghost(before),
                    );
                    rebuilt(
                        phase,
                        stage,
                        locked,
                        input,
                        plan,
                        affected,
                        committed,
                        Ghost(before),
                        Ghost(given),
                    )
                },
            }
        },
        (ApplyPhase::Executing { session }, ApplyReply::Execution { reply }) => {
            let (phase, stage, affected, committed) = to_executing(
                session.answer(reply),
                committed,
                affected,
                Ghost(before),
            );
            rebuilt(
                phase,
                stage,
                locked,
                input,
                plan,
                affected,
                committed,
                Ghost(before),
                Ghost(given),
            )
        },
        (ApplyPhase::Closing, ApplyReply::Stored { error }) => {
            let phase = match error {
                Some(error) => fail(
                    locked,
                    ApplyFailureCause::Lifecycle(ApplyError::State(error)),
                ),
                None => ApplyPhase::Ended { end: ApplyEnd::Applied },
            };
            rebuilt(
                phase,
                stage,
                locked,
                input,
                plan,
                affected,
                committed,
                Ghost(before),
                Ghost(given),
            )
        },
        (ApplyPhase::Failing { cause }, ApplyReply::Outcome { operation }) => {
            let end = ApplyEnd::Failed { cause, operation: Some(operation) };
            rebuilt(
                ApplyPhase::Ended { end },
                stage,
                locked,
                input,
                plan,
                affected,
                committed,
                Ghost(before),
                Ghost(given),
            )
        },
        (phase, _) => rebuilt(
            phase,
            stage,
            locked,
            input,
            plan,
            affected,
            committed,
            Ghost(before),
            Ghost(given),
        ),
    }
}

impl ApplySession {
    #[verifier::type_invariant]
    spec fn keeps(self) -> bool {
        self@.sound()
    }

    /// What the apply needs next.
    pub fn request(&self) -> (request: ApplyRequest)
        ensures
            self@.requests(request),
            self@.sound(),
    {
        proof {
            use_type_invariant(self);
        }
        match &self.phase {
            ApplyPhase::Locking => ApplyRequest::Lock,
            ApplyPhase::Recovering { session } => ApplyRequest::Recovery {
                request: session.request(),
            },
            ApplyPhase::Resolving => ApplyRequest::Resolve,
            ApplyPhase::Planning => ApplyRequest::Plan,
            ApplyPhase::OpeningExecutors => ApplyRequest::OpenExecutors,
            ApplyPhase::Preflighting { index } => match (&self.plan, &self.input) {
                (Some(plan), Some(input)) => {
                    let actions = plan.resource_actions();
                    assert(plan@.actions[*index as int] == actions@[*index as int]@);
                    match preflight(&actions[*index], input) {
                        Ok(call) => ApplyRequest::Preflight { index: *index, call },
                        Err(_) => {
                            assert(false);
                            ApplyRequest::Finished
                        },
                    }
                },
                _ => {
                    assert(false);
                    ApplyRequest::Finished
                },
            },
            ApplyPhase::CheckingState => ApplyRequest::PreflightState,
            ApplyPhase::Hashing => ApplyRequest::Hash,
            ApplyPhase::Confirming { .. } => ApplyRequest::Confirm,
            ApplyPhase::Beginning { .. } => ApplyRequest::Begin,
            ApplyPhase::Executing { session } => {
                let request = session.request();
                let executes = match &request {
                    ExecutionRequest::Execute { .. } => true,
                    _ => false,
                };
                let call = if executes {
                    match (session.action(), &self.input) {
                        (Some(action), Some(input)) => Some(execute(action, input)),
                        _ => {
                            assert(false);
                            None
                        },
                    }
                } else {
                    None
                };
                ApplyRequest::Execution { request, call }
            },
            ApplyPhase::Closing => ApplyRequest::Close,
            ApplyPhase::Failing { .. } => ApplyRequest::ReadOutcome,
            ApplyPhase::Ended { .. } => ApplyRequest::Finished,
        }
    }

    /// The desired resources and their sources, once they have been resolved.
    pub fn input(&self) -> (input: Option<&ResolvedApplyInput>)
        ensures
            match input {
                Some(input) => self@.sources == Some(source_views(input.verified_sources@))
                    && self@.desired == Some((input.desired.profile(), input.desired@)),
                None => self@.sources is None && self@.desired is None,
            },
    {
        match &self.input {
            Some(input) => Some(input),
            None => None,
        }
    }

    /// The plan, once it has been made.
    pub fn plan(&self) -> (plan: Option<&Plan>)
        ensures
            match plan {
                Some(plan) => self@.plan == Some(plan@),
                None => self@.plan is None,
            },
    {
        match &self.plan {
            Some(plan) => Some(plan),
            None => None,
        }
    }

    /// The hash and the actions to put on record, when the apply asks for that.
    pub fn operation_to_begin(&self) -> (operation: Option<
        (&String, &Vec<PlannedResourceAction>),
    >)
        ensures
            match operation {
                Some(operation) => self@.phase == (ApplyPhaseView::Beginning {
                    hash: operation.0@,
                    actions: action_views(operation.1@),
                }),
                None => self@.phase !is Beginning,
            },
    {
        match &self.phase {
            ApplyPhase::Beginning { hash, actions } => Some((hash, actions)),
            _ => None,
        }
    }

    /// What the apply came to, once it has ended.
    pub fn finish(self) -> (end: Option<Result<ApplyReport, ApplyFailure>>)
        ensures
            match self@.phase {
                ApplyPhaseView::Ended { end: ended } => match ended {
                    ApplyEnd::Applied => end matches Some(
                        Ok(ApplyReport::Applied { plan, committed }),
                    ) && self@.plan == Some(plan@) && id_views(committed@) == self@.committed,
                    ApplyEnd::Blocked => end matches Some(Ok(ApplyReport::Blocked { plan }))
                        && self@.plan == Some(plan@),
                    ApplyEnd::Declined => end matches Some(Ok(ApplyReport::Declined { plan }))
                        && self@.plan == Some(plan@),
                    ApplyEnd::Failed { cause, operation } => end matches Some(Err(failure))
                        && reports(failure, self@, cause, operation),
                },
                _ => end is None,
            },
    {
        proof {
            use_type_invariant(&self);
        }
        let ApplySession { phase, stage, locked, input, plan, affected, committed } = self;
        let end = match phase {
            ApplyPhase::Ended { end } => end,
            _ => return None,
        };
        match end {
            ApplyEnd::Failed { cause, operation } => {
                let commit_failure = match &cause {
                    ApplyFailureCause::Lifecycle(
                        ApplyError::State(StateRepositoryError::Commit { effect, .. }),
                    ) => Some(*effect),
                    _ => None,
                };
                Some(
                    Err(
                        ApplyFailure {
                            stage,
                            cause,
                            affected_action: affected,
                            operation,
                            commit_failure,
                            committed,
                            plan,
                        },
                    ),
                )
            },
            ApplyEnd::Applied => match plan {
                Some(plan) => Some(Ok(ApplyReport::Applied { plan, committed })),
                None => None,
            },
            ApplyEnd::Blocked => match plan {
                Some(plan) => Some(Ok(ApplyReport::Blocked { plan })),
                None => None,
            },
            ApplyEnd::Declined => match plan {
                Some(plan) => Some(Ok(ApplyReport::Declined { plan })),
                None => None,
            },
        }
    }
}

/// Whether a failure reports what an apply knew when it stopped.
pub open spec fn reports(
    failure: ApplyFailure,
    apply: ApplyView,
    cause: ApplyFailureCause,
    operation: Option<OperationOutcome>,
) -> bool {
    &&& failure.stage == apply.stage
    &&& failure.cause == cause
    &&& affected_view(failure.affected_action) == apply.affected
    &&& failure.operation == operation
    &&& failure.commit_failure == commit_effect(cause)
    &&& id_views(failure.committed@) == apply.committed
    &&& match failure.plan {
        Some(plan) => apply.plan == Some(plan@),
        None => apply.plan is None,
    }
}

/// What a commit left on disk is said exactly of a cause that is a failed commit, and it is what the
/// repository said of it.
pub proof fn only_a_failed_commit_says_what_it_left(
    cause: ApplyFailureCause,
    effect: CommitFailureEffect,
)
    ensures
        commit_effect(cause) == Some(effect) <==> (cause matches ApplyFailureCause::Lifecycle(
            ApplyError::State(StateRepositoryError::Commit { effect: left, .. }),
        ) && left == effect),
{
}

/// The actions that do something are all the actions but those that only report, in their order.
pub proof fn working_actions_are_all_but_the_reports(actions: Seq<ActionView>)
    ensures
        working(actions) == actions.filter(|action: ActionView| action !is Noop),
    decreases actions.len(),
{
    reveal(Seq::filter);
    if actions.len() > 0 {
        working_actions_are_all_but_the_reports(actions.drop_last());
    }
}

/// Every action is paired with the identity at its own place, and its resource is listed there.
pub proof fn actions_keep_their_places(actions: Seq<ActionView>, ids: Seq<ActionId>, i: int)
    ensures
        numbered(actions, ids).len() <= actions.len(),
        numbered(actions, ids).len() <= ids.len(),
        numbered(actions, ids).len() == actions.len() || numbered(actions, ids).len() == ids.len(),
        0 <= i < numbered(actions, ids).len() ==> numbered(actions, ids)[i].id == ids[i]@
            && numbered(actions, ids)[i].action == actions[i],
        resources_of(actions).len() == actions.len(),
        0 <= i < actions.len() ==> resources_of(actions)[i] == actions[i].resource_id(),
{
}

/// Whether an apply was stopped by a cause: under the lock, what the repository holds is read first.
pub open spec fn stopped_by(apply: ApplyView, cause: ApplyFailureCause) -> bool {
    if apply.locked {
        apply.phase == (ApplyPhaseView::Failing { cause })
    } else {
        apply.phase == (ApplyPhaseView::Ended {
            end: ApplyEnd::Failed { cause, operation: None },
        })
    }
}

/// What stops an apply before it has a plan, and what lets it go on: the lock and the state, and then
/// the declarations.
pub proof fn apply_goes_on_with_the_state_and_the_declarations(
    apply: ApplyView,
    reply: ApplyReply,
    next: ApplyView,
)
    requires
        apply.sound(),
        apply.answered(reply, next),
    ensures
        apply.phase is Locking ==> (reply matches ApplyReply::Locked { outcome: Err(error) }
            ==> !next.locked && stopped_by(
            next,
            ApplyFailureCause::Lifecycle(ApplyError::State(error)),
        )),
        apply.phase is Locking ==> (reply matches ApplyReply::Locked { outcome: Ok(_) }
            ==> next.locked),
        apply.phase is Resolving ==> (reply matches ApplyReply::Resolved {
            resolution: Resolution::Unconfigured(error),
        } ==> stopped_by(next, ApplyFailureCause::Input(error))),
        apply.phase is Resolving ==> (reply matches ApplyReply::Resolved {
            resolution: Resolution::Unresolved(error),
        } ==> stopped_by(next, ApplyFailureCause::Input(QueryError::Resolution(error)))),
        apply.phase is Resolving ==> (reply matches ApplyReply::Resolved {
            resolution: Resolution::Resolved(input),
        } ==> next.phase is Planning && next.desired == Some(
            (input.desired.profile(), input.desired@),
        ) && next.sources == Some(source_views(input.verified_sources@))),
{
}

/// What stops an apply with a plan before anything is on record, and what lets it go on. A plan that
/// may not be executed ends the apply, and so does one that is not confirmed.
pub proof fn apply_goes_on_with_a_checked_plan(
    apply: ApplyView,
    reply: ApplyReply,
    next: ApplyView,
)
    requires
        apply.sound(),
        apply.answered(reply, next),
    ensures
        apply.phase is Planning ==> (reply matches ApplyReply::Planned { outcome: Err(message) }
            ==> stopped_by(
            next,
            ApplyFailureCause::Lifecycle(ApplyError::InitialInspection { message }),
        )),
        apply.phase is Planning ==> (reply matches ApplyReply::Planned { outcome: Ok(plan) }
            ==> next.plan == Some(plan@) && (if plan@.executable() {
            next.phase is OpeningExecutors
        } else {
            next.phase == (ApplyPhaseView::Ended { end: ApplyEnd::Blocked })
        })),
        apply.phase is OpeningExecutors ==> (reply matches ApplyReply::Opened {
            error: Some(message),
        } ==> stopped_by(
            next,
            ApplyFailureCause::Lifecycle(ApplyError::InitialInspection { message }),
        )),
        apply.phase is CheckingState ==> (reply matches ApplyReply::Stored { error: Some(error) }
            ==> stopped_by(
            next,
            ApplyFailureCause::Lifecycle(ApplyError::StatePreflight(error)),
        )),
        apply.phase is CheckingState ==> (reply matches ApplyReply::Stored { error: None }
            ==> next.phase is Hashing),
        apply.phase is Hashing ==> (reply matches ApplyReply::Hashed { outcome: Err(message) }
            ==> stopped_by(
            next,
            ApplyFailureCause::Lifecycle(ApplyError::DesiredHash { message }),
        )),
        apply.phase is Hashing ==> (reply matches ApplyReply::Hashed { outcome: Ok(hash) }
            ==> next.phase == (ApplyPhaseView::Confirming { hash: hash@ })),
        apply.phase is Confirming ==> (reply matches ApplyReply::Confirmed { accepted: false }
            ==> next.phase == (ApplyPhaseView::Ended { end: ApplyEnd::Declined })),
{
}

/// A failed check stops an apply with what was found, told apart by what was checked.
pub proof fn failed_check_stops_the_apply(
    apply: ApplyView,
    failure: PreflightFailure,
    next: ApplyView,
)
    requires
        apply.sound(),
        apply.phase is Preflighting,
        apply.answered(ApplyReply::Preflighted { failure: Some(failure) }, next),
    ensures
        stopped_by(
            next,
            ApplyFailureCause::Lifecycle(
                match failure {
                    PreflightFailure::Create(error) => ApplyError::Preflight(error),
                    PreflightFailure::Replace(error) => ApplyError::ReplacePreflight(error),
                    PreflightFailure::Relocate(error) => ApplyError::RelocatePreflight(error),
                    PreflightFailure::Stale(error) => ApplyError::StalePreflight(error),
                    PreflightFailure::Copy(error) => ApplyError::CopyPreflight(error),
                },
            ),
        ),
        next.affected == apply.affected,
        next.committed.len() == 0,
{
}

/// An apply comes to the check of an action only with the source that the action needs. Without it
/// the apply stops there and names the resource. Past the last action the state is checked.
pub proof fn action_without_its_source_stops_the_apply(
    apply: ApplyView,
    reply: ApplyReply,
    next: ApplyView,
)
    requires
        apply.sound(),
        apply.answered(reply, next),
        apply.phase is OpeningExecutors && reply == (ApplyReply::Opened { error: None })
            || apply.phase is Preflighting && reply == (ApplyReply::Preflighted { failure: None }),
    ensures
        ({
            let reached = match apply.phase {
                ApplyPhaseView::Preflighting { index } => index + 1,
                _ => 0int,
            };
            let actions = apply.plan->0.actions;
            let action = actions[reached];
            let lacking = action.is_link() && action !is Remove && action !is ForgetMissing
                && !is_verified(apply.sources->0, action.resource_id());
            &&& reached >= actions.len() ==> next.phase is CheckingState && next.affected is None
            &&& reached < actions.len() && !lacking ==> next.phase == (
            ApplyPhaseView::Preflighting { index: reached })
            &&& reached < actions.len() && lacking ==> exists|resource_id: FullyQualifiedResourceId|
                resource_id@ == action.resource_id() && #[trigger] stopped_by(
                    next,
                    ApplyFailureCause::Lifecycle(ApplyError::MissingVerifiedSource { resource_id }),
                )
            &&& reached < actions.len() ==> next.affected == Some(
                ApplyActionView {
                    action_id: None,
                    resource_id: action.resource_id(),
                    kind: action.kind(),
                },
            )
        }),
{
    let reached = match apply.phase {
        ApplyPhaseView::Preflighting { index } => index + 1,
        _ => 0int,
    };
    let action = apply.plan->0.actions[reached];
    source_is_the_first_verified_one(apply.sources->0, action.resource_id());
    if reached < apply.plan->0.actions.len() && apply.lacks(reached) {
        let here = apply.checking(reached);
        let error = choose|error: ApplyError|
            {
                &&& #[trigger] here.stopped(error) == next
                &&& error matches ApplyError::MissingVerifiedSource { resource_id } && resource_id@
                    == apply.plan->0.actions[reached].resource_id()
            };
        if let ApplyError::MissingVerifiedSource { resource_id } = error {
            assert(stopped_by(
                next,
                ApplyFailureCause::Lifecycle(ApplyError::MissingVerifiedSource { resource_id }),
            ));
        }
    }
}

/// A confirmed plan in which nothing is to be done is applied at once, with nothing on record. Every
/// other one is put on record with its hash and with the actions that do something.
pub proof fn confirmed_plan_is_put_on_record(
    apply: ApplyView,
    hash: Seq<char>,
    next: ApplyView,
)
    requires
        apply.sound(),
        apply.phase == (ApplyPhaseView::Confirming { hash }),
        apply.answered(ApplyReply::Confirmed { accepted: true }, next),
    ensures
        (forall|i: int|
            0 <= i < apply.plan->0.actions.len() ==> (#[trigger] apply.plan->0.actions[i]) is Noop)
            <==> next.phase == (ApplyPhaseView::Ended { end: ApplyEnd::Applied }),
        (exists|i: int|
            0 <= i < apply.plan->0.actions.len() && (#[trigger] apply.plan->0.actions[i]) !is Noop)
            <==> next.phase == (ApplyPhaseView::Beginning {
            hash,
            actions: apply.plan->0.actions.filter(|action: ActionView| action !is Noop),
        }),
{
    let actions = apply.plan->0.actions;
    working_actions_are_all_but_the_reports(actions);
    lemma_working_is_empty(actions);
}

proof fn lemma_working_is_empty(actions: Seq<ActionView>)
    ensures
        working(actions).len() == 0 <==> forall|i: int|
            0 <= i < actions.len() ==> (#[trigger] actions[i]) is Noop,
    decreases actions.len(),
{
    if actions.len() > 0 {
        let rest = actions.drop_last();
        lemma_working_is_empty(rest);
        if working(actions).len() == 0 {
            assert forall|i: int| 0 <= i < actions.len() implies (#[trigger] actions[i]) is Noop by {
                if i < rest.len() {
                    assert(rest[i] is Noop);
                }
            }
        } else if forall|i: int| 0 <= i < actions.len() ==> (#[trigger] actions[i]) is Noop {
            assert(actions.last() is Noop);
            assert forall|i: int| 0 <= i < rest.len() implies (#[trigger] rest[i]) is Noop by {
                assert(actions[i] is Noop);
            }
        }
    }
}

/// What stops an apply under its operation, and how it ends. An execution that ended well is closed,
/// and only a closed operation is an applied one. What stopped the apply is kept while the repository
/// is read.
pub proof fn apply_ends_by_its_operation(apply: ApplyView, reply: ApplyReply, next: ApplyView)
    requires
        apply.sound(),
        apply.answered(reply, next),
    ensures
        apply.phase is Beginning ==> (reply matches ApplyReply::Began { outcome: Err(error) }
            ==> stopped_by(next, ApplyFailureCause::Lifecycle(ApplyError::State(error)))),
        apply.phase is Closing ==> (reply matches ApplyReply::Stored { error: Some(error) }
            ==> stopped_by(next, ApplyFailureCause::Lifecycle(ApplyError::State(error)))
            && next.committed == apply.committed),
        apply.phase is Closing ==> (reply matches ApplyReply::Stored { error: None } ==> next.phase
            == (ApplyPhaseView::Ended { end: ApplyEnd::Applied }) && next.committed
            == apply.committed),
        (apply.phase matches ApplyPhaseView::Failing { cause } ==> (reply matches
            ApplyReply::Outcome { operation } ==> next.phase == (ApplyPhaseView::Ended {
            end: ApplyEnd::Failed { cause, operation: Some(operation) },
        }))),
        (apply.phase matches ApplyPhaseView::Executing { session } ==> (reply matches
            ApplyReply::Execution { reply } ==> match session.answered(reply).phase {
            ExecutionPhaseView::Ended { outcome: Ok(_) } => next.phase is Closing && next.committed
                == session.answered(reply).committed,
            ExecutionPhaseView::Ended { outcome: Err(error) } => stopped_by(
                next,
                ApplyFailureCause::Lifecycle(error),
            ) && next.committed == session.answered(reply).committed && next.affected
                == session.answered(reply).affected,
            _ => next.phase == (ApplyPhaseView::Executing { session: session.answered(reply) }),
        })),
        (apply.phase matches ApplyPhaseView::Recovering { session } ==> (reply matches
            ApplyReply::Recovery { reply } ==> match session.answered(reply).phase {
            PhaseView::Ended { uncertain: false } => next.phase is Resolving,
            PhaseView::Ended { uncertain: true } => stopped_by(
                next,
                ApplyFailureCause::Lifecycle(ApplyError::RecoveryRequired),
            ) && next.affected == session.answered(reply).affected,
            PhaseView::Failed { error } => stopped_by(
                next,
                ApplyFailureCause::Lifecycle(ApplyError::State(error)),
            ) && next.affected == session.answered(reply).affected,
            _ => next.phase == (ApplyPhaseView::Recovering { session: session.answered(reply) }),
        })),
        apply.phase is Ended ==> next == apply,
{
}

/// The stage that a failure names is the one in which the apply stands.
pub proof fn stage_is_where_the_apply_stands(apply: ApplyView)
    requires
        apply.sound(),
    ensures
        apply.phase is Locking ==> apply.stage is LockAndState,
        apply.phase is Recovering ==> apply.stage is Recovery,
        apply.phase is Resolving ==> apply.stage is Resolution,
        apply.phase is Planning ==> apply.stage is Planning,
        apply.phase is OpeningExecutors || apply.phase is Preflighting || apply.phase
            is CheckingState || apply.phase is Hashing || apply.phase is Confirming
            ==> apply.stage is Preflight,
        apply.phase is Beginning ==> apply.stage is OperationCreation,
        apply.phase is Executing ==> apply.stage is Execution,
        apply.phase is Closing ==> apply.stage is Closure,
{
}

/// A failure keeps the stage in which it happened: what is read of the repository afterwards does not
/// change it.
pub proof fn failure_keeps_its_stage(apply: ApplyView, reply: ApplyReply, next: ApplyView)
    requires
        apply.sound(),
        apply.answered(reply, next),
        apply.phase !is Locking,
        apply.phase !is Recovering,
        apply.phase !is Executing,
        next.phase is Failing || next.phase is Ended,
    ensures
        apply.phase is Beginning ==> next.stage is OperationCreation,
        apply.phase !is Beginning ==> next.stage == apply.stage,
        next.committed == apply.committed,
{
}

/// What an apply asks for is told by where it stands.
pub proof fn apply_asks_for_what_it_stands_at(apply: ApplyView, request: ApplyRequest)
    requires
        apply.sound(),
        apply.requests(request),
    ensures
        request is Lock <==> apply.phase is Locking,
        request is Recovery <==> apply.phase is Recovering,
        request is Resolve <==> apply.phase is Resolving,
        request is Plan <==> apply.phase is Planning,
        request is OpenExecutors <==> apply.phase is OpeningExecutors,
        request is Preflight <==> apply.phase is Preflighting,
        request is PreflightState <==> apply.phase is CheckingState,
        request is Hash <==> apply.phase is Hashing,
        request is Confirm <==> apply.phase is Confirming,
        request is Begin <==> apply.phase is Beginning,
        request is Execution <==> apply.phase is Executing,
        request is Close <==> apply.phase is Closing,
        request is ReadOutcome <==> apply.phase is Failing,
        request is Finished <==> apply.phase is Ended,
        (request matches ApplyRequest::Preflight { index, .. } ==> apply.phase == (
        ApplyPhaseView::Preflighting { index: index as int })),
        (request matches ApplyRequest::Execution { request: asked, call } ==> (call is Some
            <==> asked is Execute)),
{
}

/// What an apply reports at its end is what it came to: its plan, what was committed, and of a failure
/// its stage, its cause, the action that it is about and what a failed commit left.
pub proof fn apply_reports_what_it_came_to(
    session: ApplySession,
    end: Option<Result<ApplyReport, ApplyFailure>>,
)
    requires
        call_ensures(ApplySession::finish, (session,), end),
    ensures
        end is Some <==> session@.phase is Ended,
        (end matches Some(Ok(ApplyReport::Applied { .. }))) <==> session@.phase == (
        ApplyPhaseView::Ended { end: ApplyEnd::Applied }),
        (end matches Some(Ok(ApplyReport::Blocked { .. }))) <==> session@.phase == (
        ApplyPhaseView::Ended { end: ApplyEnd::Blocked }),
        (end matches Some(Ok(ApplyReport::Declined { .. }))) <==> session@.phase == (
        ApplyPhaseView::Ended { end: ApplyEnd::Declined }),
        (end matches Some(Ok(ApplyReport::Applied { plan, committed })) ==> session@.plan == Some(
            plan@,
        ) && id_views(committed@) == session@.committed),
        (end matches Some(Ok(ApplyReport::Blocked { plan })) ==> session@.plan == Some(plan@)),
        (end matches Some(Ok(ApplyReport::Declined { plan })) ==> session@.plan == Some(plan@)),
        (end matches Some(Err(failure)) ==> session@.phase == (ApplyPhaseView::Ended {
            end: ApplyEnd::Failed { cause: failure.cause, operation: failure.operation },
        }) && failure.stage == session@.stage && affected_view(failure.affected_action)
            == session@.affected && id_views(failure.committed@) == session@.committed),
        (end matches Some(Err(failure)) ==> (failure.commit_failure is Some <==> (failure.cause matches
            ApplyFailureCause::Lifecycle(
            ApplyError::State(StateRepositoryError::Commit { .. }),
        )))),
        (end matches Some(Err(failure)) ==> (failure.plan is Some <==> session@.plan is Some)),
{
}

} // verus!
