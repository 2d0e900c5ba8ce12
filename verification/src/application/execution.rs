//! The execution of the actions of one operation, in order, one outside step at a time.
//!
//! An action is put on record as running before it is executed, and its success is committed
//! together with the recorded facts. The first action that does not succeed ends the execution:
//! the rest are put on record as skipped.

use vstd::prelude::*;
use crate::application::classification::{
    classification_step, classify_resource_execution_error, looks_view, ClassificationStep,
    ClassificationStepView, ExecutionClassification,
};
use crate::application::errors::{ApplyError, ResourceExecutionError};
use crate::application::reconcile::{affected_view, ApplyAction, ApplyActionView};
use crate::domain::ids::FullyQualifiedResourceId;
use crate::domain::plan::{ActionView, PlannedResourceAction, TargetCondition};
use crate::state::operation::{ActionId, ActionStatus, RecordedAction, RecordedView};
use crate::state::repository::StateRepositoryError;

verus! {

/// An action on record.
pub struct ItemView {
    pub id: Seq<char>,
    pub action: ActionView,
}

/// The report on an action on record.
pub open spec fn item_report(item: ItemView) -> ApplyActionView {
    ApplyActionView {
        action_id: Some(item.id),
        resource_id: item.action.resource_id(),
        kind: item.action.kind(),
    }
}

/// The actions paired with their identities, as far as both lists go.
pub open spec fn paired(actions: Seq<PlannedResourceAction>, ids: Seq<ActionId>) -> Seq<ItemView> {
    Seq::new(
        if actions.len() <= ids.len() {
            actions.len()
        } else {
            ids.len()
        },
        |i: int| ItemView { id: ids[i]@, action: actions[i]@ },
    )
}

/// The texts of a list of identities, in order.
pub open spec fn id_views(list: Seq<FullyQualifiedResourceId>) -> Seq<Seq<char>> {
    Seq::new(list.len(), |i: int| list[i]@)
}

/// The resources of the first actions.
pub open spec fn resources_until(items: Seq<ItemView>, n: int) -> Seq<Seq<char>> {
    Seq::new(n as nat, |i: int| items[i].action.resource_id())
}

/// What an execution needs next.
#[derive(Debug, PartialEq, Eq)]
pub enum ExecutionRequest {
    /// The action put on record as running.
    MarkRunning { action_id: ActionId },
    /// The action executed.
    Execute { action_id: ActionId },
    /// Whether a condition holds.
    Inspect { condition: TargetCondition },
    /// Success on record, with the change of the recorded facts, in one commit.
    Commit { action_id: ActionId },
    /// A status on record, with no change of the recorded facts.
    Record { action_id: ActionId, status: ActionStatus },
    /// The finished operation closed.
    Close,
    /// Nothing more.
    Finished,
}

/// The answer to a request.
#[derive(Debug)]
pub enum ExecutionReply {
    /// No error when the repository committed.
    Stored { error: Option<StateRepositoryError> },
    /// The action as it was on record when it was executed, and the error, if any.
    Executed { recorded: RecordedAction, error: Option<ResourceExecutionError> },
    /// No answer when the look failed.
    Looked { answer: Option<bool> },
}

/// Where an execution stands.
pub enum ExecutionPhaseView {
    Starting,
    Executing,
    Classifying { recorded: RecordedView, error: ResourceExecutionError, answers: Seq<bool> },
    Committing,
    Recording { status: ActionStatus, error: ResourceExecutionError },
    Skipping { next: int, status: ActionStatus, error: ResourceExecutionError },
    Closing { error: ResourceExecutionError },
    Ended { outcome: Result<(), ApplyError> },
}

/// An execution: its actions, the one under the hand, and what is committed.
pub struct ExecutionView {
    pub items: Seq<ItemView>,
    pub index: int,
    pub phase: ExecutionPhaseView,
    pub committed: Seq<Seq<char>>,
    pub affected: Option<ApplyActionView>,
}

impl ExecutionView {
    /// The execution stopped by the repository.
    pub open spec fn refused(self, error: StateRepositoryError) -> ExecutionView {
        ExecutionView {
            phase: ExecutionPhaseView::Ended { outcome: Err(ApplyError::State(error)) },
            ..self
        }
    }

    /// The execution come to an action, or to the end of them.
    pub open spec fn come_to(self, index: int) -> ExecutionView {
        if index >= self.items.len() {
            ExecutionView {
                index,
                phase: ExecutionPhaseView::Ended { outcome: Ok(()) },
                affected: None,
                ..self
            }
        } else {
            ExecutionView {
                index,
                phase: ExecutionPhaseView::Starting,
                affected: Some(item_report(self.items[index])),
                ..self
            }
        }
    }

    /// The execution with an error and the looks at the recorded conditions so far.
    pub open spec fn classified(
        self,
        recorded: RecordedView,
        error: ResourceExecutionError,
        looks: Option<Seq<bool>>,
    ) -> ExecutionView {
        ExecutionView {
            phase: match classification_step(recorded, error, looks) {
                ClassificationStepView::Inspect { .. } => ExecutionPhaseView::Classifying {
                    recorded,
                    error,
                    answers: looks->0,
                },
                ClassificationStepView::Classified { classification } => match classification {
                    ExecutionClassification::Succeeded => ExecutionPhaseView::Committing,
                    ExecutionClassification::Failed => ExecutionPhaseView::Recording {
                        status: ActionStatus::Failed,
                        error,
                    },
                    ExecutionClassification::Uncertain => ExecutionPhaseView::Recording {
                        status: ActionStatus::Uncertain,
                        error,
                    },
                },
            },
            ..self
        }
    }

    /// The execution that skips the actions from `next` on. Only a failed action, and not an
    /// uncertain one, lets the operation be closed.
    pub open spec fn skipping(
        self,
        next: int,
        status: ActionStatus,
        error: ResourceExecutionError,
    ) -> ExecutionView {
        if next < self.items.len() {
            ExecutionView {
                phase: ExecutionPhaseView::Skipping { next, status, error },
                affected: Some(item_report(self.items[next])),
                ..self
            }
        } else {
            ExecutionView {
                phase: if status is Failed {
                    ExecutionPhaseView::Closing { error }
                } else {
                    ExecutionPhaseView::Ended {
                        outcome: Err(ApplyError::ResourceExecution(error)),
                    }
                },
                affected: Some(item_report(self.items[self.index])),
                ..self
            }
        }
    }

    /// The execution after an answer. An answer to another question changes nothing.
    pub open spec fn answered(self, reply: ExecutionReply) -> ExecutionView {
        match (self.phase, reply) {
            (ExecutionPhaseView::Starting, ExecutionReply::Stored { error }) => match error {
                Some(error) => self.refused(error),
                None => ExecutionView { phase: ExecutionPhaseView::Executing, ..self },
            },
            (ExecutionPhaseView::Executing, ExecutionReply::Executed { recorded, error }) =>
                match error {
                Some(error) => self.classified(recorded@, error, Some(Seq::empty())),
                None => ExecutionView { phase: ExecutionPhaseView::Committing, ..self },
            },
            (
                ExecutionPhaseView::Classifying { recorded, error, answers },
                ExecutionReply::Looked { answer },
            ) => match answer {
                Some(answer) => self.classified(recorded, error, Some(answers.push(answer))),
                None => self.classified(recorded, error, None),
            },
            (ExecutionPhaseView::Committing, ExecutionReply::Stored { error }) => match error {
                Some(error) => self.refused(error),
                None => ExecutionView {
                    committed: self.committed.push(self.items[self.index].action.resource_id()),
                    ..self
                }.come_to(self.index + 1),
            },
            (
                ExecutionPhaseView::Recording { status, error },
                ExecutionReply::Stored { error: refusal },
            ) => match refusal {
                Some(refusal) => self.refused(refusal),
                None => self.skipping(self.index + 1, status, error),
            },
            (
                ExecutionPhaseView::Skipping { next, status, error },
                ExecutionReply::Stored { error: refusal },
            ) => match refusal {
                Some(refusal) => self.refused(refusal),
                None => self.skipping(next + 1, status, error),
            },
            (
                ExecutionPhaseView::Closing { error },
                ExecutionReply::Stored { error: refusal },
            ) => match refusal {
                Some(refusal) => self.refused(refusal),
                None => ExecutionView {
                    phase: ExecutionPhaseView::Ended {
                        outcome: Err(ApplyError::ResourceExecution(error)),
                    },
                    ..self
                },
            },
            _ => self,
        }
    }

    /// Whether a request is what the execution needs next.
    pub open spec fn requests(self, request: ExecutionRequest) -> bool {
        match self.phase {
            ExecutionPhaseView::Starting => request matches ExecutionRequest::MarkRunning {
                action_id,
            } && action_id@ == self.items[self.index].id,
            ExecutionPhaseView::Executing => request matches ExecutionRequest::Execute {
                action_id,
            } && action_id@ == self.items[self.index].id,
            ExecutionPhaseView::Classifying { recorded, error, answers } => request matches
                ExecutionRequest::Inspect { condition } && classification_step(
                recorded,
                error,
                Some(answers),
            ) == (ClassificationStepView::Inspect { condition: condition@ }),
            ExecutionPhaseView::Committing => request matches ExecutionRequest::Commit {
                action_id,
            } && action_id@ == self.items[self.index].id,
            ExecutionPhaseView::Recording { status, .. } => request matches
                ExecutionRequest::Record { action_id, status: asked } && action_id@
                == self.items[self.index].id && asked == status,
            ExecutionPhaseView::Skipping { next, .. } => request matches ExecutionRequest::Record {
                action_id,
                status,
            } && action_id@ == self.items[next].id && status is Skipped,
            ExecutionPhaseView::Closing { .. } => request is Close,
            ExecutionPhaseView::Ended { .. } => request is Finished,
        }
    }

    /// What every execution keeps.
    ///
    /// The committed resources are those of the actions before the one under the hand, all of
    /// them and in order. An action that only reports is never among the actions. What follows
    /// an action that did not succeed is skipped.
    pub open spec fn sound(self) -> bool {
        &&& 0 <= self.index <= self.items.len()
        &&& self.committed == resources_until(self.items, self.index)
        &&& forall|i: int| 0 <= i < self.items.len() ==> (#[trigger] self.items[i]).action !is Noop
        &&& match self.phase {
            ExecutionPhaseView::Ended { outcome } => if outcome is Ok {
                self.index == self.items.len() && self.affected is None
            } else {
                self.index < self.items.len() && self.affected is Some
            },
            ExecutionPhaseView::Skipping { next, status, .. } => {
                &&& self.index < next < self.items.len()
                &&& status is Failed || status is Uncertain
                &&& self.affected == Some(item_report(self.items[next]))
            },
            _ => {
                &&& self.index < self.items.len()
                &&& self.affected == Some(item_report(self.items[self.index]))
                &&& match self.phase {
                    ExecutionPhaseView::Classifying { recorded, error, answers } =>
                        classification_step(recorded, error, Some(answers)) is Inspect,
                    ExecutionPhaseView::Recording { status, .. } => status is Failed
                        || status is Uncertain,
                    _ => true,
                }
            },
        }
    }
}

/// The execution at its start.
pub open spec fn execution_start(items: Seq<ItemView>) -> ExecutionView {
    ExecutionView {
        items,
        index: 0,
        phase: ExecutionPhaseView::Starting,
        committed: Seq::empty(),
        affected: None,
    }.come_to(0)
}

/// An execution of actions that all do something starts sound.
pub proof fn execution_starts_sound(items: Seq<ItemView>)
    requires
        forall|i: int| 0 <= i < items.len() ==> (#[trigger] items[i]).action !is Noop,
    ensures
        execution_start(items).sound(),
{
    assert(execution_start(items).committed =~= resources_until(items, 0));
}

/// Every execution keeps what it promises, whatever it is answered.
pub proof fn execution_stays_sound(execution: ExecutionView, reply: ExecutionReply)
    requires
        execution.sound(),
    ensures
        execution.answered(reply).sound(),
{
    match (execution.phase, reply) {
        (ExecutionPhaseView::Committing, ExecutionReply::Stored { error }) => {
            assert(execution.committed.push(
                execution.items[execution.index].action.resource_id(),
            ) =~= resources_until(execution.items, execution.index + 1));
        },
        _ => {},
    }
}

/// A resource is committed only by a commit that the repository confirmed, and then it is that of
/// the action under the hand.
pub proof fn only_confirmed_commits_count(execution: ExecutionView, reply: ExecutionReply)
    requires
        execution.sound(),
        execution.answered(reply).committed != execution.committed,
    ensures
        execution.phase is Committing,
        reply == (ExecutionReply::Stored { error: None }),
        execution.answered(reply).committed == execution.committed.push(
            execution.items[execution.index].action.resource_id(),
        ),
{
}

/// Once an action has not succeeded, no later action is executed: the execution never comes back
/// to the start of an action.
pub proof fn nothing_runs_after_a_failure(execution: ExecutionView, reply: ExecutionReply)
    requires
        execution.sound(),
        execution.phase is Recording || execution.phase is Skipping || execution.phase is Closing
            || execution.phase is Ended,
    ensures
        execution.answered(reply).phase is Recording || execution.answered(reply).phase is Skipping
            || execution.answered(reply).phase is Closing || execution.answered(reply).phase
            is Ended,
        execution.answered(reply).index == execution.index,
        execution.answered(reply).committed == execution.committed,
{
}

/// The operation of an execution that met an uncertain action is never closed by it.
pub proof fn uncertain_action_leaves_the_operation_open(
    execution: ExecutionView,
    reply: ExecutionReply,
)
    requires
        execution.sound(),
        match execution.phase {
            ExecutionPhaseView::Recording { status, .. } => status is Uncertain,
            ExecutionPhaseView::Skipping { status, .. } => status is Uncertain,
            _ => false,
        },
    ensures
        match execution.answered(reply).phase {
            ExecutionPhaseView::Recording { status, .. } => status is Uncertain,
            ExecutionPhaseView::Skipping { status, .. } => status is Uncertain,
            ExecutionPhaseView::Ended { outcome } => outcome is Err,
            _ => false,
        },
{
}

/// The execution of one operation.
#[derive(Debug)]
pub struct ExecutionSession {
    actions: Vec<PlannedResourceAction>,
    ids: Vec<ActionId>,
    index: usize,
    phase: ExecutionPhase,
    committed: Vec<FullyQualifiedResourceId>,
    affected: Option<ApplyAction>,
}

#[derive(Debug)]
enum ExecutionPhase {
    Starting,
    Executing,
    Classifying { recorded: RecordedAction, error: ResourceExecutionError, answers: Vec<bool> },
    Committing,
    Recording { status: ActionStatus, error: ResourceExecutionError },
    Skipping { next: usize, status: ActionStatus, error: ResourceExecutionError },
    Closing { error: ResourceExecutionError },
    Ended { outcome: Result<(), ApplyError> },
}

spec fn phase_view(phase: ExecutionPhase) -> ExecutionPhaseView {
    match phase {
        ExecutionPhase::Starting => ExecutionPhaseView::Starting,
        ExecutionPhase::Executing => ExecutionPhaseView::Executing,
        ExecutionPhase::Classifying { recorded, error, answers } =>
            ExecutionPhaseView::Classifying { recorded: recorded@, error, answers: answers@ },
        ExecutionPhase::Committing => ExecutionPhaseView::Committing,
        ExecutionPhase::Recording { status, error } => ExecutionPhaseView::Recording {
            status,
            error,
        },
        ExecutionPhase::Skipping { next, status, error } => ExecutionPhaseView::Skipping {
            next: next as int,
            status,
            error,
        },
        ExecutionPhase::Closing { error } => ExecutionPhaseView::Closing { error },
        ExecutionPhase::Ended { outcome } => ExecutionPhaseView::Ended { outcome },
    }
}

impl View for ExecutionSession {
    type V = ExecutionView;

    closed spec fn view(&self) -> ExecutionView {
        ExecutionView {
            items: paired(self.actions@, self.ids@),
            index: self.index as int,
            phase: phase_view(self.phase),
            committed: id_views(self.committed@),
            affected: affected_view(self.affected),
        }
    }
}

fn count_of(actions: &Vec<PlannedResourceAction>, ids: &Vec<ActionId>) -> (count: usize)
    ensures
        count == paired(actions@, ids@).len(),
        count <= actions@.len(),
        count <= ids@.len(),
{
    if actions.len() <= ids.len() {
        actions.len()
    } else {
        ids.len()
    }
}

fn report_at(actions: &Vec<PlannedResourceAction>, ids: &Vec<ActionId>, i: usize) -> (report:
    ApplyAction)
    requires
        i < paired(actions@, ids@).len(),
    ensures
        report@ == item_report(paired(actions@, ids@)[i as int]),
{
    ApplyAction {
        action_id: Some(ids[i].clone()),
        resource_id: actions[i].resource_id().clone(),
        kind: actions[i].kind(),
    }
}

/// Starts the execution of actions that are on record under the given identities.
pub fn execute_resource_actions(actions: Vec<PlannedResourceAction>, ids: Vec<ActionId>) -> (session:
    ExecutionSession)
    requires
        forall|i: int| 0 <= i < actions@.len() ==> (#[trigger] actions@[i])@ !is Noop,
    ensures
        session@ == execution_start(paired(actions@, ids@)),
{
    let committed: Vec<FullyQualifiedResourceId> = Vec::new();
    let count = count_of(&actions, &ids);
    proof {
        assert forall|i: int| 0 <= i < paired(actions@, ids@).len() implies (
        #[trigger] paired(actions@, ids@)[i]).action !is Noop by {
            assert(actions@[i]@ !is Noop);
        }
        execution_starts_sound(paired(actions@, ids@));
        assert(id_views(committed@) =~= Seq::<Seq<char>>::empty());
    }
    if count == 0 {
        ExecutionSession {
            actions,
            ids,
            index: 0,
            phase: ExecutionPhase::Ended { outcome: Ok(()) },
            committed,
            affected: None,
        }
    } else {
        let affected = Some(report_at(&actions, &ids, 0));
        ExecutionSession {
            actions,
            ids,
            index: 0,
            phase: ExecutionPhase::Starting,
            committed,
            affected,
        }
    }
}

/// What an execution that has ended leaves.
#[derive(Debug)]
pub struct ExecutionEnd {
    pub outcome: Result<(), ApplyError>,
    pub committed: Vec<FullyQualifiedResourceId>,
    pub affected: Option<ApplyAction>,
}

fn to_classified(
    recorded: RecordedAction,
    error: ResourceExecutionError,
    looks: Option<Vec<bool>>,
    Ghost(before): Ghost<ExecutionView>,
) -> (phase: ExecutionPhase)
    ensures
        phase_view(phase) == before.classified(recorded@, error, looks_view(looks)).phase,
{
    match classify_resource_execution_error(&recorded, &error, &looks) {
        ClassificationStep::Inspect { .. } => match looks {
            Some(answers) => ExecutionPhase::Classifying { recorded, error, answers },
            None => {
                assert(false);
                ExecutionPhase::Committing
            },
        },
        ClassificationStep::Classified { classification } => match classification {
            ExecutionClassification::Succeeded => ExecutionPhase::Committing,
            ExecutionClassification::Failed => ExecutionPhase::Recording {
                status: ActionStatus::Failed,
                error,
            },
            ExecutionClassification::Uncertain => ExecutionPhase::Recording {
                status: ActionStatus::Uncertain,
                error,
            },
        },
    }
}

fn to_skipping(
    actions: &Vec<PlannedResourceAction>,
    ids: &Vec<ActionId>,
    next: usize,
    status: ActionStatus,
    error: ResourceExecutionError,
    index: usize,
    Ghost(before): Ghost<ExecutionView>,
) -> (skipped: (ExecutionPhase, Option<ApplyAction>))
    requires
        before.items == paired(actions@, ids@),
        before.index == index,
        index < before.items.len(),
    ensures
        phase_view(skipped.0) == before.skipping(next as int, status, error).phase,
        affected_view(skipped.1) == before.skipping(next as int, status, error).affected,
{
    if next < count_of(actions, ids) {
        let affected = Some(report_at(actions, ids, next));
        (ExecutionPhase::Skipping { next, status, error }, affected)
    } else {
        let affected = Some(report_at(actions, ids, index));
        let failed = match status {
            ActionStatus::Failed => true,
            _ => false,
        };
        if failed {
            (ExecutionPhase::Closing { error }, affected)
        } else {
            (
                ExecutionPhase::Ended { outcome: Err(ApplyError::ResourceExecution(error)) },
                affected,
            )
        }
    }
}

fn refuse(error: StateRepositoryError) -> (phase: ExecutionPhase)
    ensures
        phase_view(phase) == (ExecutionPhaseView::Ended { outcome: Err(ApplyError::State(error)) }),
{
    ExecutionPhase::Ended { outcome: Err(ApplyError::State(error)) }
}

impl ExecutionSession {
    #[verifier::type_invariant]
    spec fn keeps(self) -> bool {
        self@.sound()
    }

    /// What the execution needs next.
    pub fn request(&self) -> (request: ExecutionRequest)
        ensures
            self@.requests(request),
            self@.sound(),
    {
        proof {
            use_type_invariant(self);
        }
        match &self.phase {
            ExecutionPhase::Starting => ExecutionRequest::MarkRunning {
                action_id: self.ids[self.index].clone(),
            },
            ExecutionPhase::Executing => ExecutionRequest::Execute {
                action_id: self.ids[self.index].clone(),
            },
            ExecutionPhase::Classifying { recorded, error, answers } => {
                let looks = Some(answers.clone());
                assert(looks_view(looks) == Some(answers@));
                match classify_resource_execution_error(recorded, error, &looks) {
                    ClassificationStep::Inspect { condition } => ExecutionRequest::Inspect {
                        condition,
                    },
                    ClassificationStep::Classified { .. } => {
                        assert(false);
                        ExecutionRequest::Finished
                    },
                }
            },
            ExecutionPhase::Committing => ExecutionRequest::Commit {
                action_id: self.ids[self.index].clone(),
            },
            ExecutionPhase::Recording { status, .. } => ExecutionRequest::Record {
                action_id: self.ids[self.index].clone(),
                status: *status,
            },
            ExecutionPhase::Skipping { next, .. } => ExecutionRequest::Record {
                action_id: self.ids[*next].clone(),
                status: ActionStatus::Skipped,
            },
            ExecutionPhase::Closing { .. } => ExecutionRequest::Close,
            ExecutionPhase::Ended { .. } => ExecutionRequest::Finished,
        }
    }

    /// The action under the hand, if there is one.
    pub fn action(&self) -> (action: Option<&PlannedResourceAction>)
        ensures
            match action {
                Some(action) => self@.index < self@.items.len() && action@
                    == self@.items[self@.index].action && action@ !is Noop,
                None => self@.index == self@.items.len(),
            },
    {
        proof {
            use_type_invariant(self);
        }
        if self.index < count_of(&self.actions, &self.ids) {
            assert(self@.items[self.index as int].action !is Noop);
            Some(&self.actions[self.index])
        } else {
            None
        }
    }

    /// Whether the execution has ended.
    pub fn has_ended(&self) -> (ended: bool)
        ensures
            ended == self@.phase is Ended,
    {
        match &self.phase {
            ExecutionPhase::Ended { .. } => true,
            _ => false,
        }
    }

    /// Takes the answer to the last request.
    pub fn answer(self, reply: ExecutionReply) -> (next: Self)
        ensures
            next@ == self@.answered(reply),
    {
        let ghost before = self@;
        proof {
            use_type_invariant(&self);
            execution_stays_sound(before, reply);
        }
        let ExecutionSession { actions, ids, index, phase, committed, affected } = self;
        let count = count_of(&actions, &ids);
        match (phase, reply) {
            (ExecutionPhase::Starting, ExecutionReply::Stored { error }) => {
                let phase = match error {
                    Some(error) => refuse(error),
                    None => ExecutionPhase::Executing,
                };
                ExecutionSession { actions, ids, index, phase, committed, affected }
            },
            (ExecutionPhase::Executing, ExecutionReply::Executed { recorded, error }) => {
                let phase = match error {
                    Some(error) => {
                        let answers: Vec<bool> = Vec::new();
                        to_classified(recorded, error, Some(answers), Ghost(before))
                    },
                    None => ExecutionPhase::Committing,
                };
                ExecutionSession { actions, ids, index, phase, committed, affected }
            },
            (
                ExecutionPhase::Classifying { recorded, error, answers },
                ExecutionReply::Looked { answer },
            ) => {
                let phase = match answer {
                    Some(answer) => {
                        let mut more = answers;
                        more.push(answer);
                        to_classified(recorded, error, Some(more), Ghost(before))
                    },
                    None => to_classified(recorded, error, None, Ghost(before)),
                };
                ExecutionSession { actions, ids, index, phase, committed, affected }
            },
            (ExecutionPhase::Committing, ExecutionReply::Stored { error }) => {
                match error {
                    Some(error) => {
                        let phase = refuse(error);
                        ExecutionSession { actions, ids, index, phase, committed, affected }
                    },
                    None => {
                        let mut done = committed;
                        let ghost old_done = done@;
                        done.push(actions[index].resource_id().clone());
                        assert(id_views(done@) =~= id_views(old_done).push(
                            before.items[before.index].action.resource_id(),
                        ));
                        let index: usize = index + 1;
                        if index >= count {
                            ExecutionSession {
                                actions,
                                ids,
                                index,
                                phase: ExecutionPhase::Ended { outcome: Ok(()) },
                                committed: done,
                                affected: None,
                            }
                        } else {
                            let affected = Some(report_at(&actions, &ids, index));
                            ExecutionSession {
                                actions,
                                ids,
                                index,
                                phase: ExecutionPhase::Starting,
                                committed: done,
                                affected,
                            }
                        }
                    },
                }
            },
            (
                ExecutionPhase::Recording { status, error },
                ExecutionReply::Stored { error: refusal },
            ) => {
                match refusal {
                    Some(refusal) => {
                        let phase = refuse(refusal);
                        ExecutionSession { actions, ids, index, phase, committed, affected }
                    },
                    None => {
                        let (phase, affected) = to_skipping(
                            &actions,
                            &ids,
                            index + 1,
                            status,
                            error,
                            index,
                            Ghost(before),
                        );
                        ExecutionSession { actions, ids, index, phase, committed, affected }
                    },
                }
            },
            (
                ExecutionPhase::Skipping { next, status, error },
                ExecutionReply::Stored { error: refusal },
            ) => {
                match refusal {
                    Some(refusal) => {
                        let phase = refuse(refusal);
                        ExecutionSession { actions, ids, index, phase, committed, affected }
                    },
                    None => {
                        let (phase, affected) = to_skipping(
                            &actions,
                            &ids,
                            next + 1,
                            status,
                            error,
                            index,
                            Ghost(before),
                        );
                        ExecutionSession { actions, ids, index, phase, committed, affected }
                    },
                }
            },
            (ExecutionPhase::Closing { error }, ExecutionReply::Stored { error: refusal }) => {
                let phase = match refusal {
                    Some(refusal) => refuse(refusal),
                    None => ExecutionPhase::Ended {
                        outcome: Err(ApplyError::ResourceExecution(error)),
                    },
                };
                ExecutionSession { actions, ids, index, phase, committed, affected }
            },
            (phase, _) => ExecutionSession { actions, ids, index, phase, committed, affected },
        }
    }

    /// What the execution leaves, once it has ended.
    pub fn finish(self) -> (end: Option<ExecutionEnd>)
        ensures
            match self@.phase {
                ExecutionPhaseView::Ended { outcome } => end matches Some(end) && end.outcome
                    == outcome && id_views(end.committed@) == self@.committed && affected_view(
                    end.affected,
                ) == self@.affected,
                _ => end is None,
            },
    {
        let ExecutionSession { actions, ids, index, phase, committed, affected } = self;
        match phase {
            ExecutionPhase::Ended { outcome } => Some(
                ExecutionEnd { outcome, committed, affected },
            ),
            _ => None,
        }
    }
}

/// What is known of an executed action once an execution has been answered.
pub open spec fn known_after(execution: ExecutionView, reply: ExecutionReply) -> Option<
    ExecutionClassification,
> {
    match (execution.phase, reply) {
        (ExecutionPhaseView::Executing, ExecutionReply::Executed { recorded, error }) =>
            match error {
            None => Some(ExecutionClassification::Succeeded),
            Some(error) => match classification_step(recorded@, error, Some(Seq::empty())) {
                ClassificationStepView::Classified { classification } => Some(classification),
                ClassificationStepView::Inspect { .. } => None,
            },
        },
        (
            ExecutionPhaseView::Classifying { recorded, error, answers },
            ExecutionReply::Looked { answer },
        ) => match classification_step(
            recorded,
            error,
            match answer {
                Some(answer) => Some(answers.push(answer)),
                None => None,
            },
        ) {
            ClassificationStepView::Classified { classification } => Some(classification),
            ClassificationStepView::Inspect { .. } => None,
        },
        _ => None,
    }
}

/// An executed action is committed exactly if it is known to have succeeded. It is recorded as failed
/// or as uncertain exactly if that is what is known of it.
pub proof fn executed_action_is_recorded_as_what_is_known(
    execution: ExecutionView,
    reply: ExecutionReply,
)
    requires
        execution.sound(),
        execution.phase is Executing || execution.phase is Classifying,
    ensures
        ({
            let next = execution.answered(reply);
            &&& next.phase is Committing <==> known_after(execution, reply) == Some(
                ExecutionClassification::Succeeded,
            )
            &&& (next.phase matches ExecutionPhaseView::Recording { status, .. } && status
                is Failed) <==> known_after(execution, reply) == Some(
                ExecutionClassification::Failed,
            )
            &&& (next.phase matches ExecutionPhaseView::Recording { status, .. } && status
                is Uncertain) <==> known_after(execution, reply) == Some(
                ExecutionClassification::Uncertain,
            )
            &&& next.index == execution.index
            &&& next.committed == execution.committed
        }),
{
}

/// The error that is recorded with an action, and that ends the execution, is the one that the action
/// was stopped by.
pub proof fn error_of_an_action_is_kept_to_the_end(execution: ExecutionView, reply: ExecutionReply)
    requires
        execution.sound(),
    ensures
        (execution.answered(reply).phase matches ExecutionPhaseView::Recording { error, .. }
            ==> match execution.phase {
            ExecutionPhaseView::Recording { error: before, .. } => before == error,
            ExecutionPhaseView::Classifying { error: before, .. } => before == error,
            ExecutionPhaseView::Executing => reply matches ExecutionReply::Executed {
                error: Some(before),
                ..
            } && before == error,
            _ => false,
        }),
        (execution.answered(reply).phase matches ExecutionPhaseView::Ended {
            outcome: Err(ApplyError::ResourceExecution(error)),
        } ==> match execution.phase {
            ExecutionPhaseView::Recording { error: before, status } => before == error && status
                is Uncertain,
            ExecutionPhaseView::Skipping { error: before, status, .. } => before == error && status
                is Uncertain,
            ExecutionPhaseView::Closing { error: before } => before == error,
            ExecutionPhaseView::Ended { .. } => execution.answered(reply) == execution,
            _ => false,
        }),
        (execution.answered(reply).phase matches ExecutionPhaseView::Closing { error }
            ==> match execution.phase {
            ExecutionPhaseView::Recording { error: before, status } => before == error && status
                is Failed,
            ExecutionPhaseView::Skipping { error: before, status, .. } => before == error && status
                is Failed,
            ExecutionPhaseView::Closing { error: before } => before == error,
            _ => false,
        }),
{
}

/// An action is executed only once it is on record as running, and an action is come to only once the
/// one before it is committed.
pub proof fn action_is_executed_once_it_is_on_record(
    execution: ExecutionView,
    reply: ExecutionReply,
)
    requires
        execution.sound(),
    ensures
        execution.phase !is Executing && execution.answered(reply).phase is Executing
            ==> execution.phase is Starting && reply == (ExecutionReply::Stored { error: None }),
        execution.phase !is Starting && execution.answered(reply).phase is Starting
            ==> execution.phase is Committing && reply == (ExecutionReply::Stored { error: None })
            && execution.answered(reply).index == execution.index + 1,
        execution.phase is Starting && reply == (ExecutionReply::Stored { error: None })
            ==> execution.answered(reply).phase is Executing,
        execution.phase is Committing && reply == (ExecutionReply::Stored { error: None })
            ==> execution.answered(reply).index == execution.index + 1 && (
        if execution.index + 1 < execution.items.len() {
            execution.answered(reply).phase is Starting
        } else {
            execution.answered(reply).phase == (ExecutionPhaseView::Ended { outcome: Ok(()) })
        }),
        execution.phase !is Ended && execution.answered(reply).phase == (
        ExecutionPhaseView::Ended { outcome: Ok(()) }) ==> execution.phase is Committing
            && execution.index + 1 == execution.items.len(),
{
}

/// Every action after one that did not succeed is skipped, one after the other and none left out.
/// After the last one the operation is closed exactly if the action failed.
pub proof fn actions_after_a_failure_are_skipped_in_turn(execution: ExecutionView)
    requires
        execution.sound(),
        execution.phase is Recording || execution.phase is Skipping,
    ensures
        ({
            let next = execution.answered(ExecutionReply::Stored { error: None });
            let (reached, status) = match execution.phase {
                ExecutionPhaseView::Skipping { next, status, .. } => (next + 1, status),
                _ => (execution.index + 1, execution.phase->Recording_status),
            };
            &&& reached < execution.items.len() ==> (next.phase matches
                ExecutionPhaseView::Skipping { next: skipped, status: kept, .. } && skipped
                == reached && kept == status)
            &&& reached >= execution.items.len() ==> if status is Failed {
                next.phase is Closing
            } else {
                next.phase matches ExecutionPhaseView::Ended { outcome } && outcome is Err
            }
        }),
{
}

/// What the repository refuses ends the execution with what it says, and nothing more is committed.
pub proof fn refusal_of_the_repository_ends_the_execution(
    execution: ExecutionView,
    error: StateRepositoryError,
)
    requires
        execution.sound(),
        execution.phase is Starting || execution.phase is Committing || execution.phase is Recording
            || execution.phase is Skipping || execution.phase is Closing,
    ensures
        execution.answered(ExecutionReply::Stored { error: Some(error) }).phase == (
        ExecutionPhaseView::Ended { outcome: Err(ApplyError::State(error)) }),
        execution.answered(ExecutionReply::Stored { error: Some(error) }).committed
            == execution.committed,
        execution.answered(ExecutionReply::Stored { error: Some(error) }).affected
            == execution.affected,
{
}

/// What an execution asks for: everything of the action under the hand, but for the actions after
/// one that did not succeed, which are put on record as skipped.
pub proof fn execution_asks_for_what_it_stands_at(
    execution: ExecutionView,
    request: ExecutionRequest,
)
    requires
        execution.sound(),
        execution.requests(request),
    ensures
        request is MarkRunning <==> execution.phase is Starting,
        request is Execute <==> execution.phase is Executing,
        request is Inspect <==> execution.phase is Classifying,
        request is Commit <==> execution.phase is Committing,
        request is Record <==> execution.phase is Recording || execution.phase is Skipping,
        request is Close <==> execution.phase is Closing,
        request is Finished <==> execution.phase is Ended,
        match request {
            ExecutionRequest::MarkRunning { action_id } => action_id@
                == execution.items[execution.index].id,
            ExecutionRequest::Execute { action_id } => action_id@
                == execution.items[execution.index].id,
            ExecutionRequest::Commit { action_id } => action_id@
                == execution.items[execution.index].id,
            ExecutionRequest::Record { action_id, status } => match execution.phase {
                ExecutionPhaseView::Skipping { next, .. } => action_id@ == execution.items[next].id
                    && status is Skipped,
                ExecutionPhaseView::Recording { status: known, .. } => action_id@
                    == execution.items[execution.index].id && status == known && (status is Failed
                    || status is Uncertain),
                _ => false,
            },
            _ => true,
        },
{
}

/// What an execution reports is the action that it is about: its identity on record, its resource and
/// its kind.
pub proof fn execution_reports_the_action_it_is_about(execution: ExecutionView)
    requires
        execution.sound(),
        execution.phase !is Ended,
    ensures
        ({
            let about = match execution.phase {
                ExecutionPhaseView::Skipping { next, .. } => execution.items[next],
                _ => execution.items[execution.index],
            };
            execution.affected == Some(
                ApplyActionView {
                    action_id: Some(about.id),
                    resource_id: about.action.resource_id(),
                    kind: about.action.kind(),
                },
            )
        }),
{
}

/// An action keeps its place and gets the identity at the same place, as far as there are both.
pub proof fn action_gets_the_identity_at_its_place(
    actions: Seq<PlannedResourceAction>,
    ids: Seq<ActionId>,
    i: int,
)
    ensures
        paired(actions, ids).len() <= actions.len() && paired(actions, ids).len() <= ids.len(),
        paired(actions, ids).len() == actions.len() || paired(actions, ids).len() == ids.len(),
        0 <= i < paired(actions, ids).len() ==> paired(actions, ids)[i].id == ids[i]@
            && paired(actions, ids)[i].action == actions[i]@,
{
}

} // verus!
