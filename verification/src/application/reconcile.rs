//! The reconciliation of an interrupted operation, one outside step at a time.
//!
//! A session says what it needs next and takes the answer. It never executes an old plan: it
//! looks, it removes a recorded temporary, and it records what became of each action.

use vstd::prelude::*;
use crate::application::recovery::{
    recovery_decision, recovery_step, RecoveryDecision, RecoveryStep, RecoveryStepView,
};
use crate::domain::ids::FullyQualifiedResourceId;
use crate::domain::plan::{ActionKind, TargetCondition};
use crate::state::operation::{
    can_close, closable, entry_views, ActionId, ActionStatus, EntryView, RecordedEntry,
    RecordedFacts, RecordedView,
};
use crate::state::repository::StateRepositoryError;

verus! {

/// The action that a report is about.
#[derive(Debug, PartialEq, Eq)]
pub struct ApplyAction {
    pub action_id: Option<ActionId>,
    pub resource_id: FullyQualifiedResourceId,
    pub kind: ActionKind,
}

/// The action that a report is about, as texts.
pub struct ApplyActionView {
    pub action_id: Option<Seq<char>>,
    pub resource_id: Seq<char>,
    pub kind: ActionKind,
}

impl View for ApplyAction {
    type V = ApplyActionView;

    open spec fn view(&self) -> ApplyActionView {
        ApplyActionView {
            action_id: match self.action_id {
                Some(id) => Some(id@),
                None => None,
            },
            resource_id: self.resource_id@,
            kind: self.kind,
        }
    }
}

/// An optional action as texts.
pub open spec fn affected_view(action: Option<ApplyAction>) -> Option<ApplyActionView> {
    match action {
        Some(action) => Some(action@),
        None => None,
    }
}

/// The report on a recorded action.
pub open spec fn reported(entry: EntryView) -> ApplyActionView {
    ApplyActionView {
        action_id: Some(entry.id),
        resource_id: entry.action.resource_id,
        kind: entry.action.kind,
    }
}

/// What a session needs next.
#[derive(Debug, PartialEq, Eq)]
pub enum RecoveryRequest {
    /// An inspector of the home directory.
    OpenInspector,
    /// Nothing: answer to go on.
    Proceed,
    /// Whether a condition holds.
    Inspect { condition: TargetCondition },
    /// The removal of the temporary of a link replacement.
    CleanReplacement { action_id: ActionId },
    /// The removal of the temporary of a copy.
    CleanCopy { action_id: ActionId },
    /// A status on record, with no change of the recorded facts.
    Record { action_id: ActionId, status: ActionStatus },
    /// Success on record, with the change of the recorded facts, in one commit.
    Commit { action_id: ActionId },
    /// The finished operation closed.
    Close,
    /// Nothing more.
    Finished,
}

/// The answer to a request.
#[derive(Debug, PartialEq, Eq)]
pub enum RecoveryReply {
    Inspector { available: bool },
    Proceed,
    /// No answer when the look failed.
    Looked { answer: Option<bool> },
    Cleaned { done: bool },
    /// No error when the repository committed.
    Stored { error: Option<StateRepositoryError> },
}

/// Where a session stands.
pub enum PhaseView {
    Opening,
    Visiting,
    Deciding { answers: Seq<bool>, cleaned: bool },
    Checking,
    Cleaning,
    Recording { status: ActionStatus },
    Closing,
    Ended { uncertain: bool },
    Failed { error: StateRepositoryError },
}

/// A session: the recorded actions, the one under the hand, and where it stands.
pub struct RecoveryView {
    pub entries: Seq<EntryView>,
    pub inspector: bool,
    pub index: int,
    pub phase: PhaseView,
    pub affected: Option<ApplyActionView>,
}

/// Whether some action needs a look at its target.
pub open spec fn needs_inspection(entries: Seq<EntryView>) -> bool {
    exists|i: int|
        0 <= i < entries.len() && ((#[trigger] entries[i]).action.status is Running
            || entries[i].action.status is Uncertain)
}

/// The first action that is uncertain from `from` on.
pub open spec fn first_uncertain(entries: Seq<EntryView>, from: int) -> Option<ApplyActionView>
    decreases entries.len() - from,
{
    if from < 0 || from >= entries.len() {
        None
    } else if entries[from].action.status is Uncertain {
        Some(reported(entries[from]))
    } else {
        first_uncertain(entries, from + 1)
    }
}

impl RecoveryView {
    /// The action under the hand.
    pub open spec fn current(self) -> RecordedView {
        self.entries[self.index].action
    }

    /// The session gone on to the next action.
    pub open spec fn passed(self) -> RecoveryView {
        RecoveryView { index: self.index + 1, phase: PhaseView::Visiting, ..self }
    }

    /// The session about to record a status.
    pub open spec fn recording(self, status: ActionStatus) -> RecoveryView {
        RecoveryView { phase: PhaseView::Recording { status }, ..self }
    }

    /// The session with a final decision on the action under the hand.
    pub open spec fn concluded(self, decision: RecoveryDecision) -> RecoveryView {
        match decision {
            RecoveryDecision::Succeeded => self.recording(ActionStatus::Succeeded),
            RecoveryDecision::Failed => self.recording(ActionStatus::Failed),
            RecoveryDecision::Uncertain => if self.current().status is Running {
                self.recording(ActionStatus::Uncertain)
            } else {
                self.passed()
            },
        }
    }

    /// The session with a decision: uncertainty over a recorded temporary is looked into once.
    pub open spec fn decided(self, decision: RecoveryDecision, cleaned: bool) -> RecoveryView {
        if decision is Uncertain && !cleaned && self.current().temporary_path is Some {
            RecoveryView { phase: PhaseView::Checking, ..self }
        } else {
            self.concluded(decision)
        }
    }

    /// The session with the answers so far to the questions of the action under the hand.
    pub open spec fn deciding(self, answers: Seq<bool>, cleaned: bool) -> RecoveryView {
        match recovery_step(self.current(), answers) {
            RecoveryStepView::Inspect { .. } => RecoveryView {
                phase: PhaseView::Deciding { answers, cleaned },
                ..self
            },
            RecoveryStepView::Decided { decision } => self.decided(decision, cleaned),
        }
    }

    /// The session once it has come to an action, or to the end of them.
    pub open spec fn visited(self) -> RecoveryView {
        if self.index >= self.entries.len() {
            if closable(self.entries) {
                RecoveryView { phase: PhaseView::Closing, affected: None, ..self }
            } else {
                RecoveryView {
                    phase: PhaseView::Ended { uncertain: true },
                    affected: first_uncertain(self.entries, 0),
                    ..self
                }
            }
        } else if self.current().status.closes() {
            self.passed()
        } else {
            let here = RecoveryView {
                affected: Some(reported(self.entries[self.index])),
                ..self
            };
            if self.current().status is Pending {
                here.recording(ActionStatus::Skipped)
            } else if self.inspector {
                here.deciding(Seq::empty(), false)
            } else {
                here.concluded(RecoveryDecision::Uncertain)
            }
        }
    }

    /// The session after an answer. An answer to another question changes nothing.
    pub open spec fn answered(self, reply: RecoveryReply) -> RecoveryView {
        match (self.phase, reply) {
            (PhaseView::Opening, RecoveryReply::Inspector { available }) => RecoveryView {
                inspector: available,
                phase: PhaseView::Visiting,
                ..self
            },
            (PhaseView::Visiting, RecoveryReply::Proceed) => self.visited(),
            (PhaseView::Deciding { answers, cleaned }, RecoveryReply::Looked { answer }) =>
                match answer {
                Some(answer) => self.deciding(answers.push(answer), cleaned),
                None => self.decided(RecoveryDecision::Uncertain, cleaned),
            },
            (PhaseView::Checking, RecoveryReply::Looked { answer }) => if answer == Some(true) {
                RecoveryView { phase: PhaseView::Cleaning, ..self }
            } else {
                self.concluded(RecoveryDecision::Uncertain)
            },
            (PhaseView::Cleaning, RecoveryReply::Cleaned { done }) => if done {
                self.deciding(Seq::empty(), true)
            } else {
                self.concluded(RecoveryDecision::Uncertain)
            },
            (PhaseView::Recording { status }, RecoveryReply::Stored { error }) => match error {
                None => RecoveryView {
                    entries: with_status(self.entries, self.index, status),
                    ..self.passed()
                },
                Some(error) => RecoveryView { phase: PhaseView::Failed { error }, ..self },
            },
            (PhaseView::Closing, RecoveryReply::Stored { error }) => match error {
                None => RecoveryView { phase: PhaseView::Ended { uncertain: false }, ..self },
                Some(error) => RecoveryView { phase: PhaseView::Failed { error }, ..self },
            },
            _ => self,
        }
    }

    /// Whether a request is what the session needs next.
    pub open spec fn requests(self, request: RecoveryRequest) -> bool {
        match self.phase {
            PhaseView::Opening => request is OpenInspector,
            PhaseView::Visiting => request is Proceed,
            PhaseView::Deciding { answers, .. } => request matches RecoveryRequest::Inspect {
                condition,
            } && recovery_step(self.current(), answers) == (RecoveryStepView::Inspect {
                condition: condition@,
            }),
            PhaseView::Checking => request matches RecoveryRequest::Inspect { condition }
                && condition@ == self.current().precondition,
            PhaseView::Cleaning => if self.current().facts is Replacement {
                request matches RecoveryRequest::CleanReplacement { action_id } && action_id@
                    == self.entries[self.index].id
            } else {
                request matches RecoveryRequest::CleanCopy { action_id } && action_id@
                    == self.entries[self.index].id
            },
            PhaseView::Recording { status } => if status is Succeeded {
                request matches RecoveryRequest::Commit { action_id } && action_id@
                    == self.entries[self.index].id
            } else {
                request matches RecoveryRequest::Record { action_id, status: asked } && action_id@
                    == self.entries[self.index].id && asked == status
            },
            PhaseView::Closing => request is Close,
            PhaseView::Ended { .. } => request is Finished,
            PhaseView::Failed { .. } => request is Finished,
        }
    }

    /// Whether the session has an action under the hand.
    pub open spec fn holds_action(self) -> bool {
        self.phase is Deciding || self.phase is Checking || self.phase is Cleaning
            || self.phase is Recording
    }

    /// What every session keeps.
    ///
    /// The actions already passed are finished or uncertain. A look, a cleaning and a record
    /// concern an unfinished action. Only an action with a recorded temporary is looked into
    /// again, and the operation is closed only when every action is finished.
    pub open spec fn sound(self) -> bool {
        &&& 0 <= self.index <= self.entries.len()
        &&& (self.phase is Opening ==> self.index == 0)
        &&& (self.holds_action() ==> self.index < self.entries.len()
            && !self.current().status.closes() && self.affected == Some(
            reported(self.entries[self.index]),
        ))
        &&& forall|i: int|
            0 <= i < self.index ==> (#[trigger] self.entries[i]).action.status.closes()
                || self.entries[i].action.status is Uncertain
        &&& match self.phase {
            PhaseView::Deciding { answers, .. } => recovery_step(self.current(), answers)
                is Inspect && !(self.current().status is Pending),
            PhaseView::Checking => self.current().temporary_path is Some
                && !(self.current().status is Pending),
            PhaseView::Cleaning => self.current().temporary_path is Some
                && !(self.current().status is Pending),
            PhaseView::Recording { status } => {
                &&& status.closes() || status is Uncertain
                &&& status is Skipped == self.current().status is Pending
                &&& status is Succeeded ==> !(self.current().kind is CreateLink)
                    && !(self.current().kind is CreateCopy)
            },
            PhaseView::Closing => self.index == self.entries.len() && closable(self.entries)
                && self.affected is None,
            PhaseView::Ended { uncertain } => {
                &&& uncertain ==> self.index == self.entries.len() && !closable(self.entries)
                    && self.affected == first_uncertain(self.entries, 0)
                &&& !uncertain ==> closable(self.entries) && self.affected is None
            },
            _ => true,
        }
    }
}

/// The entries with one status changed.
pub open spec fn with_status(entries: Seq<EntryView>, i: int, status: ActionStatus) -> Seq<EntryView> {
    entries.update(
        i,
        EntryView {
            id: entries[i].id,
            action: RecordedView { status, ..entries[i].action },
        },
    )
}

/// The session at its start.
pub open spec fn recovery_start(entries: Option<Seq<EntryView>>) -> RecoveryView {
    match entries {
        None => RecoveryView {
            entries: Seq::empty(),
            inspector: false,
            index: 0,
            phase: PhaseView::Ended { uncertain: false },
            affected: None,
        },
        Some(entries) => RecoveryView {
            entries,
            inspector: false,
            index: 0,
            phase: if needs_inspection(entries) {
                PhaseView::Opening
            } else {
                PhaseView::Visiting
            },
            affected: None,
        },
    }
}

proof fn lemma_concluded_sound(session: RecoveryView, decision: RecoveryDecision)
    requires
        0 <= session.index < session.entries.len(),
        session.current().status is Running || session.current().status is Uncertain,
        session.affected == Some(reported(session.entries[session.index])),
        forall|i: int|
            0 <= i < session.index ==> (#[trigger] session.entries[i]).action.status.closes()
                || session.entries[i].action.status is Uncertain,
        decision is Succeeded ==> !(session.current().kind is CreateLink)
            && !(session.current().kind is CreateCopy),
    ensures
        session.concluded(decision).sound(),
{
}

proof fn lemma_deciding_sound(session: RecoveryView, answers: Seq<bool>, cleaned: bool)
    requires
        0 <= session.index < session.entries.len(),
        session.current().status is Running || session.current().status is Uncertain,
        session.affected == Some(reported(session.entries[session.index])),
        forall|i: int|
            0 <= i < session.index ==> (#[trigger] session.entries[i]).action.status.closes()
                || session.entries[i].action.status is Uncertain,
    ensures
        session.deciding(answers, cleaned).sound(),
{
    match recovery_step(session.current(), answers) {
        RecoveryStepView::Inspect { .. } => {},
        RecoveryStepView::Decided { decision } => {
            lemma_concluded_sound(session, decision);
        },
    }
}

/// Every session keeps what it promises, whatever it is answered.
pub proof fn recovery_stays_sound(session: RecoveryView, reply: RecoveryReply)
    requires
        session.sound(),
    ensures
        session.answered(reply).sound(),
{
    match (session.phase, reply) {
        (PhaseView::Visiting, RecoveryReply::Proceed) => {
            if session.index < session.entries.len() && !session.current().status.closes() {
                let here = RecoveryView {
                    affected: Some(reported(session.entries[session.index])),
                    ..session
                };
                if !(session.current().status is Pending) {
                    lemma_deciding_sound(here, Seq::empty(), false);
                    lemma_concluded_sound(here, RecoveryDecision::Uncertain);
                }
            }
        },
        (PhaseView::Deciding { answers, cleaned }, RecoveryReply::Looked { answer }) => {
            match answer {
                Some(answer) => {
                    lemma_deciding_sound(session, answers.push(answer), cleaned);
                },
                None => {
                    lemma_concluded_sound(session, RecoveryDecision::Uncertain);
                },
            }
        },
        (PhaseView::Checking, RecoveryReply::Looked { answer }) => {
            lemma_concluded_sound(session, RecoveryDecision::Uncertain);
        },
        (PhaseView::Cleaning, RecoveryReply::Cleaned { done }) => {
            lemma_deciding_sound(session, Seq::empty(), true);
            lemma_concluded_sound(session, RecoveryDecision::Uncertain);
        },
        (PhaseView::Recording { status }, RecoveryReply::Stored { error }) => {
            let next = session.answered(reply);
            if error is None {
                assert forall|i: int| 0 <= i < next.index implies (
                #[trigger] next.entries[i]).action.status.closes()
                    || next.entries[i].action.status is Uncertain by {
                    if i < session.index {
                        assert(next.entries[i] == session.entries[i]);
                    }
                }
            }
        },
        _ => {},
    }
}

/// A session starts sound.
pub proof fn recovery_starts_sound(entries: Option<Seq<EntryView>>)
    ensures
        recovery_start(entries).sound(),
{
}

/// The reconciliation of one operation.
#[derive(Debug)]
pub struct RecoverySession {
    entries: Vec<RecordedEntry>,
    inspector: bool,
    index: usize,
    phase: RecoveryPhase,
    affected: Option<ApplyAction>,
}

#[derive(Debug)]
enum RecoveryPhase {
    Opening,
    Visiting,
    Deciding { answers: Vec<bool>, cleaned: bool },
    Checking,
    Cleaning,
    Recording { status: ActionStatus },
    Closing,
    Ended { uncertain: bool },
    Failed { error: StateRepositoryError },
}

spec fn phase_view(phase: RecoveryPhase) -> PhaseView {
    match phase {
        RecoveryPhase::Opening => PhaseView::Opening,
        RecoveryPhase::Visiting => PhaseView::Visiting,
        RecoveryPhase::Deciding { answers, cleaned } => PhaseView::Deciding {
            answers: answers@,
            cleaned,
        },
        RecoveryPhase::Checking => PhaseView::Checking,
        RecoveryPhase::Cleaning => PhaseView::Cleaning,
        RecoveryPhase::Recording { status } => PhaseView::Recording { status },
        RecoveryPhase::Closing => PhaseView::Closing,
        RecoveryPhase::Ended { uncertain } => PhaseView::Ended { uncertain },
        RecoveryPhase::Failed { error } => PhaseView::Failed { error },
    }
}

impl View for RecoverySession {
    type V = RecoveryView;

    closed spec fn view(&self) -> RecoveryView {
        RecoveryView {
            entries: entry_views(self.entries@),
            inspector: self.inspector,
            index: self.index as int,
            phase: phase_view(self.phase),
            affected: affected_view(self.affected),
        }
    }
}

fn to_reported(entry: &RecordedEntry) -> (action: ApplyAction)
    ensures
        action@ == reported(entry@),
{
    ApplyAction {
        action_id: Some(entry.id.clone()),
        resource_id: entry.action.resource_id().clone(),
        kind: entry.action.kind(),
    }
}

fn wants_inspection(entries: &Vec<RecordedEntry>) -> (wants: bool)
    ensures
        wants == needs_inspection(entry_views(entries@)),
{
    let mut i: usize = 0;
    while i < entries.len()
        invariant
            i <= entries@.len(),
            forall|k: int|
                0 <= k < i ==> !((#[trigger] entry_views(entries@)[k]).action.status is Running
                    || entry_views(entries@)[k].action.status is Uncertain),
        decreases entries.len() - i,
    {
        assert(entry_views(entries@)[i as int] == entries@[i as int]@);
        match entries[i].action.status() {
            ActionStatus::Running | ActionStatus::Uncertain => {
                return true;
            },
            _ => {},
        }
        i += 1;
    }
    false
}

/// Starts the reconciliation of the active operation, if there is one.
pub fn reconcile_active_operation(operation: Option<Vec<RecordedEntry>>) -> (session:
    RecoverySession)
    ensures
        session@ == recovery_start(
            match operation {
                Some(entries) => Some(entry_views(entries@)),
                None => None,
            },
        ),
{
    match operation {
        None => {
            let entries: Vec<RecordedEntry> = Vec::new();
            assert(entry_views(entries@) =~= Seq::<EntryView>::empty());
            RecoverySession {
                entries,
                inspector: false,
                index: 0,
                phase: RecoveryPhase::Ended { uncertain: false },
                affected: None,
            }
        },
        Some(entries) => {
            let phase = if wants_inspection(&entries) {
                RecoveryPhase::Opening
            } else {
                RecoveryPhase::Visiting
            };
            RecoverySession { entries, inspector: false, index: 0, phase, affected: None }
        },
    }
}

/// What a session that has ended leaves.
#[derive(Debug)]
pub struct RecoveryEnd {
    /// Whether an uncertain record remains open, or why the session could not go on.
    pub outcome: Result<bool, StateRepositoryError>,
    pub affected: Option<ApplyAction>,
}

impl RecoverySession {
    #[verifier::type_invariant]
    spec fn keeps(self) -> bool {
        self@.sound()
    }

    /// What the session needs next.
    pub fn request(&self) -> (request: RecoveryRequest)
        ensures
            self@.requests(request),
            self@.sound(),
    {
        proof {
            use_type_invariant(self);
        }
        match &self.phase {
            RecoveryPhase::Opening => RecoveryRequest::OpenInspector,
            RecoveryPhase::Visiting => RecoveryRequest::Proceed,
            RecoveryPhase::Deciding { answers, cleaned } => {
                let step = recovery_decision(&self.entries[self.index].action, answers);
                assert(self@.current() == self.entries@[self.index as int].action@);
                match step {
                    RecoveryStep::Inspect { condition } => RecoveryRequest::Inspect { condition },
                    RecoveryStep::Decided { decision } => {
                        assert(false);
                        RecoveryRequest::Finished
                    },
                }
            },
            RecoveryPhase::Checking => {
                assert(self@.current() == self.entries@[self.index as int].action@);
                RecoveryRequest::Inspect {
                    condition: self.entries[self.index].action.precondition().clone(),
                }
            },
            RecoveryPhase::Cleaning => {
                assert(self@.current() == self.entries@[self.index as int].action@);
                let entry = &self.entries[self.index];
                match entry.action.facts() {
                    RecordedFacts::Replacement => RecoveryRequest::CleanReplacement {
                        action_id: entry.id.clone(),
                    },
                    _ => RecoveryRequest::CleanCopy { action_id: entry.id.clone() },
                }
            },
            RecoveryPhase::Recording { status } => {
                let entry = &self.entries[self.index];
                match status {
                    ActionStatus::Succeeded => RecoveryRequest::Commit {
                        action_id: entry.id.clone(),
                    },
                    _ => RecoveryRequest::Record { action_id: entry.id.clone(), status: *status },
                }
            },
            RecoveryPhase::Closing => RecoveryRequest::Close,
            RecoveryPhase::Ended { .. } => RecoveryRequest::Finished,
            RecoveryPhase::Failed { .. } => RecoveryRequest::Finished,
        }
    }

    /// Whether the session has ended.
    pub fn has_ended(&self) -> (ended: bool)
        ensures
            ended == (self@.phase is Ended || self@.phase is Failed),
    {
        match &self.phase {
            RecoveryPhase::Ended { .. } => true,
            RecoveryPhase::Failed { .. } => true,
            _ => false,
        }
    }
}

/// A session with a final decision on the action under the hand.
fn conclude(
    entries: Vec<RecordedEntry>,
    inspector: bool,
    index: usize,
    affected: Option<ApplyAction>,
    decision: RecoveryDecision,
    Ghost(before): Ghost<RecoveryView>,
) -> (session: RecoverySession)
    requires
        before.entries == entry_views(entries@),
        before.inspector == inspector,
        before.index == index,
        before.affected == affected_view(affected),
        index < entries@.len(),
        before.concluded(decision).sound(),
    ensures
        session@ == before.concluded(decision),
{
    let count: usize = entries.len();
    assert(index < count);
    assert(before.current() == entries@[index as int].action@);
    let status = match decision {
        RecoveryDecision::Succeeded => ActionStatus::Succeeded,
        RecoveryDecision::Failed => ActionStatus::Failed,
        RecoveryDecision::Uncertain => {
            match entries[index].action.status() {
                ActionStatus::Running => ActionStatus::Uncertain,
                _ => {
                    return RecoverySession {
                        entries,
                        inspector,
                        index: index + 1,
                        phase: RecoveryPhase::Visiting,
                        affected,
                    };
                },
            }
        },
    };
    RecoverySession { entries, inspector, index, phase: RecoveryPhase::Recording { status }, affected }
}

/// A session with a decision on the action under the hand.
fn decide(
    entries: Vec<RecordedEntry>,
    inspector: bool,
    index: usize,
    affected: Option<ApplyAction>,
    decision: RecoveryDecision,
    cleaned: bool,
    Ghost(before): Ghost<RecoveryView>,
) -> (session: RecoverySession)
    requires
        before.entries == entry_views(entries@),
        before.inspector == inspector,
        before.index == index,
        before.affected == affected_view(affected),
        index < entries@.len(),
        before.decided(decision, cleaned).sound(),
    ensures
        session@ == before.decided(decision, cleaned),
{
    assert(before.current() == entries@[index as int].action@);
    let uncertain = match decision {
        RecoveryDecision::Uncertain => true,
        _ => false,
    };
    if uncertain && !cleaned && entries[index].action.temporary_path().is_some() {
        RecoverySession { entries, inspector, index, phase: RecoveryPhase::Checking, affected }
    } else {
        conclude(entries, inspector, index, affected, decision, Ghost(before))
    }
}

/// A session with the answers so far to the questions of the action under the hand.
fn ask(
    entries: Vec<RecordedEntry>,
    inspector: bool,
    index: usize,
    affected: Option<ApplyAction>,
    answers: Vec<bool>,
    cleaned: bool,
    Ghost(before): Ghost<RecoveryView>,
) -> (session: RecoverySession)
    requires
        before.entries == entry_views(entries@),
        before.inspector == inspector,
        before.index == index,
        before.affected == affected_view(affected),
        index < entries@.len(),
        before.deciding(answers@, cleaned).sound(),
    ensures
        session@ == before.deciding(answers@, cleaned),
{
    assert(before.current() == entries@[index as int].action@);
    match recovery_decision(&entries[index].action, &answers) {
        RecoveryStep::Inspect { .. } => RecoverySession {
            entries,
            inspector,
            index,
            phase: RecoveryPhase::Deciding { answers, cleaned },
            affected,
        },
        RecoveryStep::Decided { decision } => decide(
            entries,
            inspector,
            index,
            affected,
            decision,
            cleaned,
            Ghost(before),
        ),
    }
}

/// A session that has come to an action, or to the end of them.
fn visit(
    entries: Vec<RecordedEntry>,
    inspector: bool,
    index: usize,
    affected: Option<ApplyAction>,
    Ghost(before): Ghost<RecoveryView>,
) -> (session: RecoverySession)
    requires
        before.entries == entry_views(entries@),
        before.inspector == inspector,
        before.index == index,
        before.phase is Visiting,
        before.affected == affected_view(affected),
        index <= entries@.len(),
        before.visited().sound(),
    ensures
        session@ == before.visited(),
{
    if index >= entries.len() {
        if can_close(&entries) {
            return RecoverySession {
                entries,
                inspector,
                index,
                phase: RecoveryPhase::Closing,
                affected: None,
            };
        }
        let mut first: Option<ApplyAction> = None;
        let mut i: usize = 0;
        while i < entries.len()
            invariant_except_break
                first is None,
                first_uncertain(entry_views(entries@), 0) == first_uncertain(
                    entry_views(entries@),
                    i as int,
                ),
            invariant
                i <= entries@.len(),
            ensures
                affected_view(first) == first_uncertain(entry_views(entries@), 0),
            decreases entries.len() - i,
        {
            assert(entry_views(entries@)[i as int] == entries@[i as int]@);
            let uncertain = match entries[i].action.status() {
                ActionStatus::Uncertain => true,
                _ => false,
            };
            if uncertain {
                first = Some(to_reported(&entries[i]));
                break;
            }
            i += 1;
        }
        return RecoverySession {
            entries,
            inspector,
            index,
            phase: RecoveryPhase::Ended { uncertain: true },
            affected: first,
        };
    }
    assert(before.current() == entries@[index as int].action@);
    let status = entries[index].action.status();
    if status.closes_operation() {
        return RecoverySession {
            entries,
            inspector,
            index: index + 1,
            phase: RecoveryPhase::Visiting,
            affected,
        };
    }
    let here = Some(to_reported(&entries[index]));
    let ghost here_view = RecoveryView { affected: affected_view(here), ..before };
    assert(here_view.affected == Some(reported(before.entries[before.index])));
    match status {
        ActionStatus::Pending => RecoverySession {
            entries,
            inspector,
            index,
            phase: RecoveryPhase::Recording { status: ActionStatus::Skipped },
            affected: here,
        },
        _ => if inspector {
            let answers: Vec<bool> = Vec::new();
            ask(entries, inspector, index, here, answers, false, Ghost(here_view))
        } else {
            conclude(
                entries,
                inspector,
                index,
                here,
                RecoveryDecision::Uncertain,
                Ghost(here_view),
            )
        },
    }
}

/// Takes the answer to the last request: the step of every reconciliation.
pub fn reconcile_active_operation_with_action_and_cleanup(
    session: RecoverySession,
    reply: RecoveryReply,
) -> (next: RecoverySession)
    ensures
        next@ == session@.answered(reply),
{
    let ghost before = session@;
    proof {
        use_type_invariant(&session);
        recovery_stays_sound(before, reply);
    }
    let RecoverySession { entries, inspector, index, phase, affected } = session;
    match (phase, reply) {
        (RecoveryPhase::Opening, RecoveryReply::Inspector { available }) => RecoverySession {
            entries,
            inspector: available,
            index,
            phase: RecoveryPhase::Visiting,
            affected,
        },
        (RecoveryPhase::Visiting, RecoveryReply::Proceed) => visit(
            entries,
            inspector,
            index,
            affected,
            Ghost(before),
        ),
        (RecoveryPhase::Deciding { answers, cleaned }, RecoveryReply::Looked { answer }) => {
            match answer {
                Some(answer) => {
                    let mut more = answers;
                    more.push(answer);
                    ask(entries, inspector, index, affected, more, cleaned, Ghost(before))
                },
                None => decide(
                    entries,
                    inspector,
                    index,
                    affected,
                    RecoveryDecision::Uncertain,
                    cleaned,
                    Ghost(before),
                ),
            }
        },
        (RecoveryPhase::Checking, RecoveryReply::Looked { answer }) => {
            let holds = match answer {
                Some(true) => true,
                _ => false,
            };
            if holds {
                RecoverySession {
                    entries,
                    inspector,
                    index,
                    phase: RecoveryPhase::Cleaning,
                    affected,
                }
            } else {
                conclude(
                    entries,
                    inspector,
                    index,
                    affected,
                    RecoveryDecision::Uncertain,
                    Ghost(before),
                )
            }
        },
        (RecoveryPhase::Cleaning, RecoveryReply::Cleaned { done }) => {
            if done {
                let answers: Vec<bool> = Vec::new();
                ask(entries, inspector, index, affected, answers, true, Ghost(before))
            } else {
                conclude(
                    entries,
                    inspector,
                    index,
                    affected,
                    RecoveryDecision::Uncertain,
                    Ghost(before),
                )
            }
        },
        (RecoveryPhase::Recording { status }, RecoveryReply::Stored { error }) => {
            match error {
                None => {
                    let mut list = entries;
                    let count: usize = list.len();
                    assert(index < count);
                    let ghost old_list = list@;
                    let entry = list.remove(index);
                    let changed = RecordedEntry {
                        id: entry.id,
                        action: entry.action.with_status(status),
                    };
                    list.insert(index, changed);
                    assert(entry_views(list@) =~= with_status(
                        entry_views(old_list),
                        index as int,
                        status,
                    ));
                    RecoverySession {
                        entries: list,
                        inspector,
                        index: index + 1,
                        phase: RecoveryPhase::Visiting,
                        affected,
                    }
                },
                Some(error) => RecoverySession {
                    entries,
                    inspector,
                    index,
                    phase: RecoveryPhase::Failed { error },
                    affected,
                },
            }
        },
        (RecoveryPhase::Closing, RecoveryReply::Stored { error }) => {
            match error {
                None => RecoverySession {
                    entries,
                    inspector,
                    index,
                    phase: RecoveryPhase::Ended { uncertain: false },
                    affected,
                },
                Some(error) => RecoverySession {
                    entries,
                    inspector,
                    index,
                    phase: RecoveryPhase::Failed { error },
                    affected,
                },
            }
        },
        (phase, _) => RecoverySession { entries, inspector, index, phase, affected },
    }
}

/// What an ended reconciliation leaves: whether a record remains open, and the affected action.
pub fn reconcile_active_operation_with_action(session: RecoverySession) -> (end: Option<RecoveryEnd>)
    ensures
        match session@.phase {
            PhaseView::Ended { uncertain } => end matches Some(end) && end.outcome == Ok::<
                bool,
                StateRepositoryError,
            >(uncertain) && affected_view(end.affected) == session@.affected,
            PhaseView::Failed { error } => end matches Some(end) && end.outcome == Err::<
                bool,
                StateRepositoryError,
            >(error) && affected_view(end.affected) == session@.affected,
            _ => end is None,
        },
{
    let RecoverySession { entries, inspector, index, phase, affected } = session;
    match phase {
        RecoveryPhase::Ended { uncertain } => Some(
            RecoveryEnd { outcome: Ok(uncertain), affected },
        ),
        RecoveryPhase::Failed { error } => Some(RecoveryEnd { outcome: Err(error), affected }),
        _ => None,
    }
}

/// A temporary is removed only right after its action's old effect was seen to stand.
pub proof fn cleaning_follows_a_confirmed_precondition(session: RecoveryView, reply: RecoveryReply)
    requires
        session.sound(),
        session.answered(reply).phase is Cleaning,
        !(session.phase is Cleaning),
    ensures
        session.phase is Checking,
        reply == (RecoveryReply::Looked { answer: Some(true) }),
        session.current().temporary_path is Some,
{
}

/// A recorded status changes only when the repository has committed it, one action at a time.
pub proof fn statuses_change_only_by_commits(session: RecoveryView, reply: RecoveryReply)
    requires
        session.sound(),
        session.answered(reply).entries != session.entries,
    ensures
        session.phase is Recording,
        reply == (RecoveryReply::Stored { error: None }),
        session.answered(reply).entries == with_status(
            session.entries,
            session.index,
            session.phase->Recording_status,
        ),
{
}

/// A session that ends with an open record reports an action that is uncertain.
pub proof fn open_record_has_an_uncertain_action(session: RecoveryView)
    requires
        session.sound(),
        session.phase == (PhaseView::Ended { uncertain: true }),
    ensures
        session.affected is Some,
        exists|i: int|
            0 <= i < session.entries.len() && (#[trigger] session.entries[i]).action.status
                is Uncertain && session.affected == Some(reported(session.entries[i])),
{
    let k = choose|k: int|
        0 <= k < session.entries.len() && !(#[trigger] session.entries[k]).action.status.closes();
    lemma_first_uncertain(session.entries, 0, k);
}

proof fn lemma_first_uncertain(entries: Seq<EntryView>, from: int, k: int)
    requires
        0 <= from <= k < entries.len(),
        entries[k].action.status is Uncertain,
    ensures
        exists|i: int|
            0 <= i < entries.len() && (#[trigger] entries[i]).action.status is Uncertain
                && first_uncertain(entries, from) == Some(reported(entries[i])),
    decreases k - from,
{
    if entries[from].action.status is Uncertain {
        assert(first_uncertain(entries, from) == Some(reported(entries[from])));
    } else {
        lemma_first_uncertain(entries, from + 1, k);
    }
}

/// What the facts decide of the action under the hand, once a session has been answered.
pub open spec fn decision_after(session: RecoveryView, reply: RecoveryReply) -> Option<
    RecoveryDecision,
> {
    let answers = match (session.phase, reply) {
        (PhaseView::Visiting, RecoveryReply::Proceed) => if session.inspector {
            Some(Seq::empty())
        } else {
            None
        },
        (
            PhaseView::Deciding { answers, .. },
            RecoveryReply::Looked { answer: Some(answer) },
        ) => Some(answers.push(answer)),
        (PhaseView::Cleaning, RecoveryReply::Cleaned { done: true }) => Some(Seq::empty()),
        _ => None,
    };
    match answers {
        Some(answers) => match recovery_step(session.entries[session.index].action, answers) {
            RecoveryStepView::Decided { decision } => Some(decision),
            RecoveryStepView::Inspect { .. } => None,
        },
        None => None,
    }
}

/// A status is recorded only for a reason: a pending action is skipped, a success and a failure
/// follow the decision on the facts, and only a running action becomes uncertain.
pub proof fn status_is_recorded_for_a_reason(
    session: RecoveryView,
    reply: RecoveryReply,
    status: ActionStatus,
)
    requires
        session.sound(),
        session.phase !is Recording,
        session.answered(reply).phase == (PhaseView::Recording { status }),
    ensures
        session.answered(reply).index == session.index,
        session.answered(reply).entries == session.entries,
        status is Skipped <==> session.entries[session.index].action.status is Pending,
        status is Succeeded || status is Failed || status is Skipped || status is Uncertain,
        status is Succeeded ==> decision_after(session, reply) == Some(RecoveryDecision::Succeeded),
        status is Failed ==> decision_after(session, reply) == Some(RecoveryDecision::Failed),
        status is Uncertain ==> session.entries[session.index].action.status is Running && (
        decision_after(session, reply) is None || decision_after(session, reply) == Some(
            RecoveryDecision::Uncertain,
        )),
{
}

/// A decision on the facts is never put aside: a success and a failure are recorded at once, and
/// nothing is recorded of a finished action.
pub proof fn decision_on_the_facts_is_recorded(session: RecoveryView, reply: RecoveryReply)
    requires
        session.sound(),
        0 <= session.index < session.entries.len(),
    ensures
        ({
            let status = session.entries[session.index].action.status;
            let next = session.answered(reply);
            let open = status is Running || status is Uncertain;
            &&& open && decision_after(session, reply) == Some(RecoveryDecision::Succeeded)
                ==> next.phase == (PhaseView::Recording { status: ActionStatus::Succeeded })
            &&& open && decision_after(session, reply) == Some(RecoveryDecision::Failed)
                ==> next.phase == (PhaseView::Recording { status: ActionStatus::Failed })
            &&& session.phase is Visiting && reply is Proceed && status is Pending ==> next.phase
                == (PhaseView::Recording { status: ActionStatus::Skipped })
            &&& session.phase is Visiting && reply is Proceed && !open && status !is Pending
                ==> next.phase is Visiting && next.index == session.index + 1
            &&& session.phase is Visiting && reply is Proceed && status is Running
                && !session.inspector ==> next.phase == (PhaseView::Recording {
                status: ActionStatus::Uncertain,
            })
            &&& session.phase is Visiting && reply is Proceed && status is Uncertain
                && !session.inspector ==> next.phase is Visiting && next.index == session.index + 1
        }),
{
}

/// What cannot be decided of an action is looked into once more exactly if it left a temporary that
/// has not been cleaned yet. Otherwise a running action becomes uncertain, and one that is uncertain
/// already stays so.
pub proof fn undecided_action_is_looked_into_once(session: RecoveryView, reply: RecoveryReply)
    requires
        session.sound(),
        session.phase matches PhaseView::Deciding { .. },
        reply matches RecoveryReply::Looked { .. },
        reply == (RecoveryReply::Looked { answer: None }) || decision_after(session, reply) == Some(
            RecoveryDecision::Uncertain,
        ),
    ensures
        ({
            let action = session.entries[session.index].action;
            let next = session.answered(reply);
            let again = !session.phase->Deciding_cleaned && action.temporary_path is Some;
            &&& again <==> next.phase is Checking
            &&& !again && action.status is Running ==> next.phase == (PhaseView::Recording {
                status: ActionStatus::Uncertain,
            })
            &&& !again && action.status is Uncertain ==> next.phase is Visiting && next.index
                == session.index + 1 && next.entries == session.entries
        }),
{
}

/// A temporary is cleaned exactly if the precondition was seen to hold, and the facts are looked at
/// anew only after a cleaning that was done.
pub proof fn facts_are_looked_at_anew_after_a_cleaning_alone(
    session: RecoveryView,
    reply: RecoveryReply,
)
    requires
        session.sound(),
    ensures
        session.phase is Checking && reply is Looked ==> (session.answered(reply).phase is Cleaning
            <==> reply == (RecoveryReply::Looked { answer: Some(true) })),
        session.phase !is Cleaning && session.answered(reply).phase is Cleaning
            ==> session.phase is Checking,
        (session.phase is Cleaning && reply is Cleaned && reply != (RecoveryReply::Cleaned {
            done: true,
        })) ==> session.answered(reply).phase !is Deciding && session.answered(reply).phase
            !is Cleaning,
        session.phase !is Deciding ==> (session.answered(reply).phase matches PhaseView::Deciding {
            cleaned,
            ..
        } ==> (cleaned <==> session.phase is Cleaning)),
{
}

/// What a session asks for: a commit exactly for a success, a record for every other status, a look
/// for a condition of the action under the hand, and the end of the operation only once every action
/// is finished.
pub proof fn session_asks_for_what_it_stands_at(session: RecoveryView, request: RecoveryRequest)
    requires
        session.sound(),
        session.requests(request),
    ensures
        request is Commit <==> session.phase == (PhaseView::Recording {
            status: ActionStatus::Succeeded,
        }),
        (request matches RecoveryRequest::Commit { action_id } ==> action_id@
            == session.entries[session.index].id),
        request is Record <==> session.phase is Recording && session.phase != (
        PhaseView::Recording { status: ActionStatus::Succeeded }),
        (request matches RecoveryRequest::Record { action_id, status } ==> session.phase == (
        PhaseView::Recording { status }) && action_id@ == session.entries[session.index].id
            && status !is Succeeded && status !is Pending && status !is Running),
        request is Close <==> session.phase is Closing,
        request is Close ==> forall|i: int|
            0 <= i < session.entries.len() ==> (#[trigger] session.entries[i]).action.status
                !is Pending && session.entries[i].action.status !is Running
                && session.entries[i].action.status !is Uncertain,
        request is CleanReplacement <==> session.phase is Cleaning
            && session.entries[session.index].action.facts is Replacement,
        (request matches RecoveryRequest::CleanReplacement { action_id } ==> action_id@
            == session.entries[session.index].id),
        request is CleanCopy <==> session.phase is Cleaning
            && session.entries[session.index].action.facts !is Replacement,
        (request matches RecoveryRequest::CleanCopy { action_id } ==> action_id@
            == session.entries[session.index].id),
        request is Inspect <==> session.phase is Deciding || session.phase is Checking,
        session.phase is Checking ==> (request matches RecoveryRequest::Inspect { condition }
            && condition@ == session.entries[session.index].action.precondition),
        session.phase is Deciding ==> (request matches RecoveryRequest::Inspect { condition }
            && recovery_step(
            session.entries[session.index].action,
            session.phase->answers,
        ) == (RecoveryStepView::Inspect { condition: condition@ })),
        request is OpenInspector <==> session.phase is Opening,
        request is Proceed <==> session.phase is Visiting,
        request is Finished <==> session.phase is Ended || session.phase is Failed,
{
    if session.phase is Closing {
        assert forall|i: int| 0 <= i < session.entries.len() implies (
        #[trigger] session.entries[i]).action.status !is Pending && session.entries[i].action.status
            !is Running && session.entries[i].action.status !is Uncertain by {
            assert(session.entries[i].action.status.closes());
        }
    }
}

/// A session with no operation is over at once. A session with one starts at its first action, and
/// an inspector is opened exactly if some action is running or uncertain.
pub proof fn inspector_is_opened_exactly_if_needed(entries: Seq<EntryView>)
    ensures
        recovery_start(None).phase == (PhaseView::Ended { uncertain: false }),
        recovery_start(Some(entries)).entries == entries,
        recovery_start(Some(entries)).index == 0,
        recovery_start(Some(entries)).phase is Opening <==> exists|i: int|
            0 <= i < entries.len() && ((#[trigger] entries[i]).action.status is Running
                || entries[i].action.status is Uncertain),
        recovery_start(Some(entries)).phase is Opening || recovery_start(Some(entries)).phase
            is Visiting,
{
}

/// A session that has come to the end of its actions closes the operation exactly if every action is
/// finished. Otherwise it ends with the operation open, and reports the first uncertain action.
pub proof fn session_ends_by_what_is_left_open(session: RecoveryView)
    requires
        session.sound(),
        session.phase is Visiting,
        session.index == session.entries.len(),
    ensures
        ({
            let next = session.answered(RecoveryReply::Proceed);
            let open = exists|i: int|
                0 <= i < session.entries.len() && (#[trigger] session.entries[i]).action.status
                    is Uncertain;
            &&& next.phase is Closing <==> !open
            &&& next.phase == (PhaseView::Ended { uncertain: true }) <==> open
            &&& open ==> exists|i: int|
                0 <= i < session.entries.len() && (#[trigger] session.entries[i]).action.status
                    is Uncertain && next.affected == Some(
                    ApplyActionView {
                        action_id: Some(session.entries[i].id),
                        resource_id: session.entries[i].action.resource_id,
                        kind: session.entries[i].action.kind,
                    },
                ) && forall|k: int|
                    0 <= k < i ==> (#[trigger] session.entries[k]).action.status !is Uncertain
            &&& !open ==> next.affected is None
        }),
{
    let entries = session.entries;
    if closable(entries) {
        assert forall|i: int| 0 <= i < entries.len() implies (#[trigger] entries[i]).action.status
            !is Uncertain by {
            assert(entries[i].action.status.closes());
        }
    } else {
        let i = choose|i: int|
            0 <= i < entries.len() && !(#[trigger] entries[i]).action.status.closes();
        assert(entries[i].action.status is Uncertain);
        lemma_least_uncertain(entries, 0);
    }
}

proof fn lemma_least_uncertain(entries: Seq<EntryView>, from: int)
    requires
        0 <= from <= entries.len(),
        exists|i: int|
            from <= i < entries.len() && (#[trigger] entries[i]).action.status is Uncertain,
    ensures
        exists|i: int|
            from <= i < entries.len() && (#[trigger] entries[i]).action.status is Uncertain
                && first_uncertain(entries, from) == Some(
                ApplyActionView {
                    action_id: Some(entries[i].id),
                    resource_id: entries[i].action.resource_id,
                    kind: entries[i].action.kind,
                },
            ) && forall|k: int|
                from <= k < i ==> (#[trigger] entries[k]).action.status !is Uncertain,
    decreases entries.len() - from,
{
    if !(entries[from].action.status is Uncertain) {
        lemma_least_uncertain(entries, from + 1);
    }
}

/// What a commit that failed says is what the session ends with, and a session goes on only after
/// what it asked for was stored.
pub proof fn session_goes_on_only_after_a_commit(
    session: RecoveryView,
    error: Option<StateRepositoryError>,
)
    requires
        session.sound(),
        session.phase is Recording || session.phase is Closing,
    ensures
        ({
            let next = session.answered(RecoveryReply::Stored { error });
            &&& error matches Some(error) ==> next.phase == (PhaseView::Failed { error })
                && next.entries == session.entries && next.index == session.index
            &&& error is None && session.phase is Closing ==> next.phase == (PhaseView::Ended {
                uncertain: false,
            })
            &&& error is None && session.phase is Recording ==> next.phase is Visiting && next.index
                == session.index + 1 && next.entries[session.index].action.status
                == session.phase->Recording_status && next.entries.len() == session.entries.len()
        }),
{
}

/// How a session ended is what it reports, and nothing is reported before.
pub proof fn session_reports_how_it_ended(session: RecoverySession, end: Option<RecoveryEnd>)
    requires
        call_ensures(reconcile_active_operation_with_action, (session,), end),
    ensures
        end is Some <==> session@.phase is Ended || session@.phase is Failed,
        (end matches Some(end) ==> (end.outcome matches Ok(uncertain) ==> session@.phase == (
        PhaseView::Ended { uncertain }))),
        (end matches Some(end) ==> (end.outcome matches Err(error) ==> session@.phase == (
        PhaseView::Failed { error }))),
        (end matches Some(end) ==> affected_view(end.affected) == session@.affected),
{
}

} // verus!
