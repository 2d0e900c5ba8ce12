//! The application of a plan of exactly one link action of an expected kind.

use vstd::prelude::*;
use crate::application::classification::{
    classify_execution, classify_resource_execution_error, error_shows, outcome_of,
    ClassificationStep, ExecutionClassification, ExecutionOutcome,
};
use crate::application::dispatch::{
    check_is_sourceless, failed_check, is_check_for, lacks_source, preflight, preflight_error,
    preflight_name, source_of, source_view, source_views, ExecuteName, PreflightCall,
    PreflightFailure, PreflightName, ResolvedApplyInput, SourceView, VerifiedSource,
};
use crate::application::errors::{
    ApplyError, ResourceExecutionError, StaleLinkExecutionError,
};
use crate::application::reconcile::{
    reconcile_active_operation, reconcile_active_operation_with_action,
    reconcile_active_operation_with_action_and_cleanup, recovery_start, PhaseView, RecoveryReply,
    RecoveryRequest, RecoverySession, RecoveryView,
};
use crate::domain::effects::EffectView;
use crate::domain::ids::FullyQualifiedResourceId;
use crate::domain::paths::ResolvedPath;
use crate::domain::plan::{
    link_action_views, ActionKind, ActionView, Plan, PlanView, PlannedAction, PlannedResourceAction,
};
use crate::state::operation::{
    entry_views, ActionId, ActionStatus, RecordedAction, RecordedEntry, RecordedFacts, RecordedView,
};
use crate::state::repository::StateRepositoryError;

verus! {

/// The kind of single action that is expected.
#[derive(Clone, Copy, Debug, PartialEq, Eq, Structural)]
pub enum SingleEntry {
    Create,
    Stale,
    Replace,
    ReplaceOwnership,
    Relocate,
}

/// Whether an entry takes an action of a kind.
pub open spec fn admits(entry: SingleEntry, kind: ActionKind) -> bool {
    match entry {
        SingleEntry::Create => kind is CreateLink,
        SingleEntry::Stale => kind is RemoveLink || kind is ForgetMissing,
        SingleEntry::Replace => kind is ReplaceLink,
        SingleEntry::ReplaceOwnership => kind is ReplaceOwnership,
        SingleEntry::Relocate => kind is RelocateLink,
    }
}

/// Whether a plan consists of the one action that an entry takes.
pub open spec fn is_single(entry: SingleEntry, links: Seq<ActionView>) -> bool {
    links.len() == 1 && admits(entry, links[0].kind())
}

/// The kinds of a list of actions, in order.
pub open spec fn kinds_of(links: Seq<ActionView>) -> Seq<ActionKind> {
    Seq::new(links.len(), |i: int| links[i].kind())
}

/// Whether an error is what an entry answers to a plan that is not its own.
pub open spec fn refuses(entry: SingleEntry, links: Seq<ActionView>, error: ApplyError) -> bool {
    match entry {
        SingleEntry::Create => error matches ApplyError::SliceFourRequiresSingleCreateAction {
            action_kinds,
        } && action_kinds@ == kinds_of(links),
        SingleEntry::Stale => error matches ApplyError::SliceFiveRequiresSingleStaleAction {
            action_kinds,
        } && action_kinds@ == kinds_of(links),
        SingleEntry::Replace => error matches ApplyError::SliceSixRequiresSingleReplaceAction {
            action_kinds,
        } && action_kinds@ == kinds_of(links),
        SingleEntry::ReplaceOwnership => error matches
            ApplyError::SliceSixRequiresSingleReplaceOwnershipAction { action_kinds }
            && action_kinds@ == kinds_of(links),
        SingleEntry::Relocate => error matches ApplyError::SliceSixRequiresSingleRelocateAction {
            action_kinds,
        } && action_kinds@ == kinds_of(links),
    }
}

/// Whether an outcome is the one action of an entry, or the entry's refusal of the plan.
pub open spec fn requires_single(
    entry: SingleEntry,
    plan: PlanView,
    outcome: Result<&PlannedAction, ApplyError>,
) -> bool {
    match outcome {
        Ok(action) => is_single(entry, plan.links) && action@ == plan.links[0],
        Err(error) => !is_single(entry, plan.links) && refuses(entry, plan.links, error),
    }
}

fn admits_kind(entry: SingleEntry, kind: ActionKind) -> (admitted: bool)
    ensures
        admitted == admits(entry, kind),
{
    match (entry, kind) {
        (SingleEntry::Create, ActionKind::CreateLink) => true,
        (SingleEntry::Stale, ActionKind::RemoveLink) => true,
        (SingleEntry::Stale, ActionKind::ForgetMissing) => true,
        (SingleEntry::Replace, ActionKind::ReplaceLink) => true,
        (SingleEntry::ReplaceOwnership, ActionKind::ReplaceOwnership) => true,
        (SingleEntry::Relocate, ActionKind::RelocateLink) => true,
        _ => false,
    }
}

fn to_kinds(actions: &Vec<PlannedAction>) -> (kinds: Vec<ActionKind>)
    ensures
        kinds@ == kinds_of(link_action_views(actions@)),
{
    let mut kinds: Vec<ActionKind> = Vec::new();
    let mut i: usize = 0;
    while i < actions.len()
        invariant
            i <= actions@.len(),
            kinds@.len() == i,
            forall|k: int| 0 <= k < i ==> #[trigger] kinds@[k] == actions@[k]@.kind(),
        decreases actions.len() - i,
    {
        kinds.push(actions[i].kind());
        i += 1;
    }
    assert(kinds@ =~= kinds_of(link_action_views(actions@)));
    kinds
}

fn single_action(plan: &Plan, entry: SingleEntry) -> (found: Option<&PlannedAction>)
    ensures
        match found {
            Some(action) => is_single(entry, plan@.links) && action@ == plan@.links[0],
            None => !is_single(entry, plan@.links),
        },
{
    let actions = plan.actions();
    assert(plan@.links.len() == actions@.len());
    if actions.len() != 1 {
        return None;
    }
    assert(plan@.links[0] == actions@[0]@);
    if admits_kind(entry, actions[0].kind()) {
        Some(&actions[0])
    } else {
        None
    }
}

/// The one create action of a plan.
pub fn require_single_create_action(plan: &Plan) -> (outcome: Result<&PlannedAction, ApplyError>)
    ensures
        requires_single(SingleEntry::Create, plan@, outcome),
{
    match single_action(plan, SingleEntry::Create) {
        Some(action) => Ok(action),
        None => Err(
            ApplyError::SliceFourRequiresSingleCreateAction {
                action_kinds: to_kinds(plan.actions()),
            },
        ),
    }
}

/// The one removal or forgetting of a plan.
pub fn require_single_stale_action(plan: &Plan) -> (outcome: Result<&PlannedAction, ApplyError>)
    ensures
        requires_single(SingleEntry::Stale, plan@, outcome),
{
    match single_action(plan, SingleEntry::Stale) {
        Some(action) => Ok(action),
        None => Err(
            ApplyError::SliceFiveRequiresSingleStaleAction {
                action_kinds: to_kinds(plan.actions()),
            },
        ),
    }
}

/// The one replacement of a plan.
pub fn require_single_replace_action(plan: &Plan) -> (outcome: Result<&PlannedAction, ApplyError>)
    ensures
        requires_single(SingleEntry::Replace, plan@, outcome),
{
    match single_action(plan, SingleEntry::Replace) {
        Some(action) => Ok(action),
        None => Err(
            ApplyError::SliceSixRequiresSingleReplaceAction {
                action_kinds: to_kinds(plan.actions()),
            },
        ),
    }
}

/// The one change of ownership of a plan.
pub fn require_single_replace_ownership_action(plan: &Plan) -> (outcome: Result<
    &PlannedAction,
    ApplyError,
>)
    ensures
        requires_single(SingleEntry::ReplaceOwnership, plan@, outcome),
{
    match single_action(plan, SingleEntry::ReplaceOwnership) {
        Some(action) => Ok(action),
        None => Err(
            ApplyError::SliceSixRequiresSingleReplaceOwnershipAction {
                action_kinds: to_kinds(plan.actions()),
            },
        ),
    }
}

/// The one relocation of a plan.
pub fn require_single_relocate_action(plan: &Plan) -> (outcome: Result<&PlannedAction, ApplyError>)
    ensures
        requires_single(SingleEntry::Relocate, plan@, outcome),
{
    match single_action(plan, SingleEntry::Relocate) {
        Some(action) => Ok(action),
        None => Err(
            ApplyError::SliceSixRequiresSingleRelocateAction {
                action_kinds: to_kinds(plan.actions()),
            },
        ),
    }
}

/// The check that an action on a stale link needs.
pub fn preflight_stale_action(action: &PlannedAction) -> (outcome: Result<
    PreflightName,
    StaleLinkExecutionError,
>)
    ensures
        outcome == match action@.kind() {
            ActionKind::RemoveLink => Ok(PreflightName::Remove),
            ActionKind::ForgetMissing => Ok(PreflightName::ForgetMissing),
            kind => Err(StaleLinkExecutionError::UnsupportedAction { kind }),
        },
{
    match action.kind() {
        ActionKind::RemoveLink => Ok(PreflightName::Remove),
        ActionKind::ForgetMissing => Ok(PreflightName::ForgetMissing),
        kind => Err(StaleLinkExecutionError::UnsupportedAction { kind }),
    }
}

/// The one action of a plan and the check that it needs.
#[derive(Debug)]
pub struct PreparedAction {
    pub action: PlannedAction,
    pub call: PreflightCall,
}

/// Whether an outcome is the prepared action of an entry, or the reason why there is none.
pub open spec fn prepares(
    entry: SingleEntry,
    plan: PlanView,
    sources: Seq<SourceView>,
    outcome: Result<PreparedAction, ApplyError>,
) -> bool {
    match outcome {
        Ok(prepared) => {
            &&& is_single(entry, plan.links)
            &&& prepared.action@ == plan.links[0]
            &&& is_check_for(prepared.call, plan.links[0], sources)
            &&& !lacks_source(plan.links[0], sources)
        },
        Err(error) => if is_single(entry, plan.links) {
            &&& lacks_source(plan.links[0], sources)
            &&& error matches ApplyError::MissingVerifiedSource { resource_id } && resource_id@
                == plan.links[0].resource_id()
        } else {
            refuses(entry, plan.links, error)
        },
    }
}

fn prepare(
    entry: SingleEntry,
    plan: &Plan,
    required: Result<&PlannedAction, ApplyError>,
    resolved: &ResolvedApplyInput,
) -> (outcome: Result<PreparedAction, ApplyError>)
    requires
        requires_single(entry, plan@, required),
    ensures
        prepares(entry, plan@, source_views(resolved.verified_sources@), outcome),
{
    let action = match required {
        Ok(action) => action,
        Err(error) => return Err(error),
    };
    let member = PlannedResourceAction::FileLink(action.clone());
    match preflight(&member, resolved) {
        Ok(call) => Ok(PreparedAction { action: action.clone(), call }),
        Err(error) => Err(error),
    }
}

/// Binds one home directory and one state directory.
#[derive(Debug, PartialEq, Eq)]
pub struct ApplyCoordinator {
    pub home_directory: ResolvedPath,
    pub state_directory: ResolvedPath,
}

impl ApplyCoordinator {
    /// Binds the directories without looking at either.
    pub fn new(home_directory: ResolvedPath, state_directory: ResolvedPath) -> (coordinator: Self)
        ensures
            coordinator.home_directory == home_directory,
            coordinator.state_directory == state_directory,
    {
        ApplyCoordinator { home_directory, state_directory }
    }

    /// The prepared create of a plan.
    pub fn apply_with_hooks(&self, plan: &Plan, resolved: &ResolvedApplyInput) -> (outcome: Result<
        PreparedAction,
        ApplyError,
    >)
        ensures
            prepares(
                SingleEntry::Create,
                plan@,
                source_views(resolved.verified_sources@),
                outcome,
            ),
    {
        prepare(SingleEntry::Create, plan, require_single_create_action(plan), resolved)
    }

    /// The prepared removal or forgetting of a plan.
    pub fn apply_stale_with_hooks(&self, plan: &Plan, resolved: &ResolvedApplyInput) -> (outcome:
        Result<PreparedAction, ApplyError>)
        ensures
            prepares(
                SingleEntry::Stale,
                plan@,
                source_views(resolved.verified_sources@),
                outcome,
            ),
    {
        prepare(SingleEntry::Stale, plan, require_single_stale_action(plan), resolved)
    }

    /// The prepared replacement of a plan.
    pub fn apply_replace_link_with_hooks(&self, plan: &Plan, resolved: &ResolvedApplyInput) -> (outcome:
        Result<PreparedAction, ApplyError>)
        ensures
            prepares(
                SingleEntry::Replace,
                plan@,
                source_views(resolved.verified_sources@),
                outcome,
            ),
    {
        prepare(SingleEntry::Replace, plan, require_single_replace_action(plan), resolved)
    }

    /// The prepared change of ownership of a plan.
    pub fn apply_replace_ownership_with_hooks(
        &self,
        plan: &Plan,
        resolved: &ResolvedApplyInput,
    ) -> (outcome: Result<PreparedAction, ApplyError>)
        ensures
            prepares(
                SingleEntry::ReplaceOwnership,
                plan@,
                source_views(resolved.verified_sources@),
                outcome,
            ),
    {
        prepare(
            SingleEntry::ReplaceOwnership,
            plan,
            require_single_replace_ownership_action(plan),
            resolved,
        )
    }

    fn prepare_relocate(&self, plan: &Plan, resolved: &ResolvedApplyInput) -> (outcome: Result<
        PreparedAction,
        ApplyError,
    >)
        ensures
            prepares(
                SingleEntry::Relocate,
                plan@,
                source_views(resolved.verified_sources@),
                outcome,
            ),
    {
        prepare(SingleEntry::Relocate, plan, require_single_relocate_action(plan), resolved)
    }

    fn prepare_entry(&self, entry: SingleEntry, plan: &Plan, resolved: &ResolvedApplyInput) -> (outcome:
        Result<PreparedAction, ApplyError>)
        ensures
            prepares(entry, plan@, source_views(resolved.verified_sources@), outcome),
    {
        match entry {
            SingleEntry::Create => self.apply_with_hooks(plan, resolved),
            SingleEntry::Stale => self.apply_stale_with_hooks(plan, resolved),
            SingleEntry::Replace => self.apply_replace_link_with_hooks(plan, resolved),
            SingleEntry::ReplaceOwnership => self.apply_replace_ownership_with_hooks(
                plan,
                resolved,
            ),
            SingleEntry::Relocate => self.prepare_relocate(plan, resolved),
        }
    }
}

/// The call that executes a single action. A change of ownership replaces the link only when the
/// record says that it does.
pub open spec fn single_call(action: ActionView, recorded: RecordedView) -> ExecuteName {
    match action.kind() {
        ActionKind::CreateLink => ExecuteName::CreateLink,
        ActionKind::RemoveLink => ExecuteName::RemoveLink,
        ActionKind::ForgetMissing => ExecuteName::ForgetMissingLink,
        ActionKind::RelocateLink => ExecuteName::RelocateLink,
        ActionKind::ReplaceOwnership => if recorded.facts is Replacement {
            ExecuteName::ReplaceLink
        } else {
            ExecuteName::SameSourceHandoff
        },
        _ => ExecuteName::ReplaceLink,
    }
}

fn to_single_call(action: &PlannedAction, recorded: &RecordedAction) -> (name: ExecuteName)
    ensures
        name == single_call(action@, recorded@),
{
    match action.kind() {
        ActionKind::CreateLink => ExecuteName::CreateLink,
        ActionKind::RemoveLink => ExecuteName::RemoveLink,
        ActionKind::ForgetMissing => ExecuteName::ForgetMissingLink,
        ActionKind::RelocateLink => ExecuteName::RelocateLink,
        ActionKind::ReplaceOwnership => match recorded.facts() {
            RecordedFacts::Replacement => ExecuteName::ReplaceLink,
            _ => ExecuteName::SameSourceHandoff,
        },
        _ => ExecuteName::ReplaceLink,
    }
}

/// What the application of a single action needs next.
#[derive(Debug)]
pub enum SingleRequest {
    Lock,
    Recovery { request: RecoveryRequest },
    Plan,
    OpenExecutor,
    Preflight { call: PreflightCall },
    PreflightState,
    Hash,
    Confirm,
    Begin,
    MarkRunning { action_id: ActionId },
    Execute { name: ExecuteName, source: Option<VerifiedSource> },
    Commit { action_id: ActionId },
    Record { action_id: ActionId, status: ActionStatus },
    Close,
    Finished,
}

/// The answer to a request.
#[derive(Debug)]
pub enum SingleReply {
    Locked { outcome: Result<Option<Vec<RecordedEntry>>, StateRepositoryError> },
    Recovery { reply: RecoveryReply },
    Planned { outcome: Result<Plan, String> },
    Opened { error: Option<String> },
    Preflighted { failure: Option<PreflightFailure> },
    Stored { error: Option<StateRepositoryError> },
    Hashed { outcome: Result<String, String> },
    Confirmed { accepted: bool },
    Began { outcome: Result<ActionId, StateRepositoryError> },
    /// The action as it is on record, once it is on record as running.
    Marked { outcome: Result<RecordedAction, StateRepositoryError> },
    Executed { error: Option<ResourceExecutionError> },
}

/// What the application of a single action came to.
#[derive(Debug)]
pub enum SingleEnd {
    Applied,
    Blocked,
    Declined,
    Failed { error: ResourceExecutionError },
    Uncertain { error: ResourceExecutionError },
}

/// Where the application of a single action stands.
pub enum SinglePhaseView {
    Locking,
    Recovering { session: RecoveryView },
    Planning,
    OpeningExecutor,
    Checking,
    CheckingState,
    Hashing,
    Confirming { hash: Seq<char> },
    Beginning { hash: Seq<char> },
    Starting { id: Seq<char> },
    Executing { id: Seq<char>, recorded: RecordedView },
    Committing { id: Seq<char> },
    Recording { id: Seq<char>, status: ActionStatus, error: ResourceExecutionError },
    Closing { end: SingleEnd },
    Ended { outcome: Result<SingleEnd, ApplyError> },
}

/// The application of a single action.
pub struct SingleView {
    pub entry: SingleEntry,
    /// The root profile and the desired resources.
    pub desired: (Seq<char>, Seq<EffectView>),
    pub sources: Seq<SourceView>,
    pub phase: SinglePhaseView,
    pub plan: Option<PlanView>,
}

/// The application of a single action at its start.
pub open spec fn single_start(entry: SingleEntry, input: ResolvedApplyInput) -> SingleView {
    SingleView {
        entry,
        desired: (input.desired.profile(), input.desired@),
        sources: source_views(input.verified_sources@),
        phase: SinglePhaseView::Locking,
        plan: None,
    }
}

/// What an executed action is known to be.
pub open spec fn single_outcome(error: Option<ResourceExecutionError>) -> ExecutionOutcome<
    ResourceExecutionError,
> {
    match error {
        None => ExecutionOutcome::Succeeded,
        Some(error) => outcome_of(
            Err(error),
            match error_shows(error) {
                Some(classification) => classification,
                None => ExecutionClassification::Uncertain,
            },
        ),
    }
}

impl SingleView {
    /// The application gone on to a phase.
    pub open spec fn at(self, phase: SinglePhaseView) -> SingleView {
        SingleView { phase, ..self }
    }

    /// The application stopped by an error.
    pub open spec fn stopped(self, error: ApplyError) -> SingleView {
        self.at(SinglePhaseView::Ended { outcome: Err(error) })
    }

    /// The application with a reconciliation.
    pub open spec fn recovering(self, session: RecoveryView) -> SingleView {
        match session.phase {
            PhaseView::Ended { uncertain } => if uncertain {
                self.stopped(ApplyError::RecoveryRequired)
            } else {
                self.at(SinglePhaseView::Planning)
            },
            PhaseView::Failed { error } => self.stopped(ApplyError::State(error)),
            _ => self.at(SinglePhaseView::Recovering { session }),
        }
    }

    /// The action of the plan.
    pub open spec fn action(self) -> ActionView {
        self.plan->0.links[0]
    }

    /// Whether an application with a plan is what it has to be: blocked, refused, or with the one
    /// action of its entry.
    pub open spec fn planned(self, plan: PlanView, next: SingleView) -> bool {
        let here = SingleView { plan: Some(plan), ..self };
        if !plan.executable() {
            next == here.at(SinglePhaseView::Ended { outcome: Ok(SingleEnd::Blocked) })
        } else if !is_single(self.entry, plan.links) {
            exists|error: ApplyError|
                next == #[trigger] here.stopped(error) && refuses(self.entry, plan.links, error)
        } else if lacks_source(plan.links[0], self.sources) {
            exists|error: ApplyError|
                next == #[trigger] here.stopped(error) && (error matches
                    ApplyError::MissingVerifiedSource { resource_id } && resource_id@
                    == plan.links[0].resource_id())
        } else {
            next == here.at(SinglePhaseView::OpeningExecutor)
        }
    }

    /// The application with an executed action.
    pub open spec fn executed(self, id: Seq<char>, error: Option<ResourceExecutionError>) -> SingleView {
        match single_outcome(error) {
            ExecutionOutcome::Succeeded => self.at(SinglePhaseView::Committing { id }),
            ExecutionOutcome::Failed(error) => self.at(
                SinglePhaseView::Recording { id, status: ActionStatus::Failed, error },
            ),
            ExecutionOutcome::Uncertain(error) => self.at(
                SinglePhaseView::Recording { id, status: ActionStatus::Uncertain, error },
            ),
        }
    }

    /// Whether an application after an answer is what it has to be. An answer to another question
    /// changes nothing.
    pub open spec fn answered(self, reply: SingleReply, next: SingleView) -> bool {
        match (self.phase, reply) {
            (SinglePhaseView::Locking, SingleReply::Locked { outcome }) => match outcome {
                Err(error) => next == self.stopped(ApplyError::State(error)),
                Ok(entries) => next == self.recovering(
                    recovery_start(
                        match entries {
                            Some(entries) => Some(entry_views(entries@)),
                            None => None,
                        },
                    ),
                ),
            },
            (SinglePhaseView::Recovering { session }, SingleReply::Recovery { reply }) => next
                == self.recovering(session.answered(reply)),
            (SinglePhaseView::Planning, SingleReply::Planned { outcome }) => match outcome {
                Err(message) => next == self.stopped(ApplyError::InitialInspection { message }),
                Ok(plan) => self.planned(plan@, next),
            },
            (SinglePhaseView::OpeningExecutor, SingleReply::Opened { error }) => match error {
                Some(message) => next == self.stopped(ApplyError::InitialInspection { message }),
                None => next == self.at(SinglePhaseView::Checking),
            },
            (SinglePhaseView::Checking, SingleReply::Preflighted { failure }) => match failure {
                Some(failure) => next == self.stopped(failed_check(failure)),
                None => next == self.at(SinglePhaseView::CheckingState),
            },
            (SinglePhaseView::CheckingState, SingleReply::Stored { error }) => match error {
                Some(error) => next == self.stopped(ApplyError::StatePreflight(error)),
                None => next == self.at(SinglePhaseView::Hashing),
            },
            (SinglePhaseView::Hashing, SingleReply::Hashed { outcome }) => match outcome {
                Err(message) => next == self.stopped(ApplyError::DesiredHash { message }),
                Ok(hash) => next == self.at(SinglePhaseView::Confirming { hash: hash@ }),
            },
            (SinglePhaseView::Confirming { hash }, SingleReply::Confirmed { accepted }) =>
                if accepted {
                    next == self.at(SinglePhaseView::Beginning { hash })
                } else {
                    next == self.at(SinglePhaseView::Ended { outcome: Ok(SingleEnd::Declined) })
                },
            (SinglePhaseView::Beginning { .. }, SingleReply::Began { outcome }) => match outcome {
                Err(error) => next == self.stopped(ApplyError::State(error)),
                Ok(id) => next == self.at(SinglePhaseView::Starting { id: id@ }),
            },
            (SinglePhaseView::Starting { id }, SingleReply::Marked { outcome }) => match outcome {
                Err(error) => next == self.stopped(ApplyError::State(error)),
                Ok(recorded) => next == self.at(
                    SinglePhaseView::Executing { id, recorded: recorded@ },
                ),
            },
            (SinglePhaseView::Executing { id, .. }, SingleReply::Executed { error }) => next
                == self.executed(id, error),
            (SinglePhaseView::Committing { .. }, SingleReply::Stored { error }) => match error {
                Some(error) => next == self.stopped(ApplyError::State(error)),
                None => next == self.at(SinglePhaseView::Closing { end: SingleEnd::Applied }),
            },
            (
                SinglePhaseView::Recording { status, error, .. },
                SingleReply::Stored { error: refusal },
            ) => match refusal {
                Some(refusal) => next == self.stopped(ApplyError::State(refusal)),
                None => if status is Failed {
                    next == self.at(SinglePhaseView::Closing { end: SingleEnd::Failed { error } })
                } else {
                    next == self.at(
                        SinglePhaseView::Ended { outcome: Ok(SingleEnd::Uncertain { error }) },
                    )
                },
            },
            (SinglePhaseView::Closing { end }, SingleReply::Stored { error }) => match error {
                Some(error) => next == self.stopped(ApplyError::State(error)),
                None => next == self.at(SinglePhaseView::Ended { outcome: Ok(end) }),
            },
            _ => next == self,
        }
    }

    /// Whether a request is what the application needs next.
    pub open spec fn requests(self, request: SingleRequest) -> bool {
        match self.phase {
            SinglePhaseView::Locking => request is Lock,
            SinglePhaseView::Recovering { session } => request matches SingleRequest::Recovery {
                request,
            } && session.requests(request),
            SinglePhaseView::Planning => request is Plan,
            SinglePhaseView::OpeningExecutor => request is OpenExecutor,
            SinglePhaseView::Checking => request matches SingleRequest::Preflight { call }
                && is_check_for(call, self.action(), self.sources),
            SinglePhaseView::CheckingState => request is PreflightState,
            SinglePhaseView::Hashing => request is Hash,
            SinglePhaseView::Confirming { .. } => request is Confirm,
            SinglePhaseView::Beginning { .. } => request is Begin,
            SinglePhaseView::Starting { id } => request matches SingleRequest::MarkRunning {
                action_id,
            } && action_id@ == id,
            SinglePhaseView::Executing { recorded, .. } => request matches SingleRequest::Execute {
                name,
                source,
            } && name == single_call(self.action(), recorded) && source_view(source)
                == if check_is_sourceless(preflight_name(self.action())) {
                None
            } else {
                source_of(self.sources, self.action().resource_id())
            },
            SinglePhaseView::Committing { id } => request matches SingleRequest::Commit {
                action_id,
            } && action_id@ == id,
            SinglePhaseView::Recording { id, status, .. } => request matches SingleRequest::Record {
                action_id,
                status: asked,
            } && action_id@ == id && asked == status,
            SinglePhaseView::Closing { .. } => request is Close,
            SinglePhaseView::Ended { .. } => request is Finished,
        }
    }

    /// Whether the application has the one action of its entry, with its source.
    pub open spec fn prepared(self) -> bool {
        &&& self.plan is Some
        &&& self.plan->0.executable()
        &&& is_single(self.entry, self.plan->0.links)
        &&& !lacks_source(self.action(), self.sources)
    }

    /// What every application of a single action keeps.
    ///
    /// Nothing is checked, confirmed, recorded or executed but the one action of the entry, in an
    /// executable plan.
    pub open spec fn sound(self) -> bool {
        match self.phase {
            SinglePhaseView::Locking => self.plan is None,
            SinglePhaseView::Recovering { session } => {
                &&& self.plan is None
                &&& session.phase !is Ended
                &&& session.phase !is Failed
            },
            SinglePhaseView::Planning => self.plan is None,
            SinglePhaseView::Recording { status, .. } => self.prepared() && (status is Failed
                || status is Uncertain),
            SinglePhaseView::Closing { end } => self.prepared() && (end is Applied
                || end is Failed),
            SinglePhaseView::Ended { outcome } => match outcome {
                Ok(end) => match end {
                    SingleEnd::Blocked => self.plan is Some && !self.plan->0.executable(),
                    _ => self.prepared(),
                },
                Err(_) => true,
            },
            _ => self.prepared(),
        }
    }
}

/// Every application of a single action keeps what it promises, whatever it is answered.
pub proof fn single_stays_sound(single: SingleView, reply: SingleReply, next: SingleView)
    requires
        single.sound(),
        single.answered(reply, next),
    ensures
        next.sound(),
{
}

/// What was resolved is what is applied: no answer changes the desired resources or their sources.
pub proof fn single_input_stays(single: SingleView, reply: SingleReply, next: SingleView)
    requires
        single.sound(),
        single.answered(reply, next),
    ensures
        next.desired == single.desired,
        next.sources == single.sources,
        next.entry == single.entry,
{
}

/// An uncertain action leaves its operation open: nothing closes it.
pub proof fn uncertain_single_action_is_not_closed(
    single: SingleView,
    reply: SingleReply,
    next: SingleView,
)
    requires
        single.sound(),
        single.answered(reply, next),
        single.phase matches SinglePhaseView::Recording { status, .. } && status is Uncertain,
    ensures
        next.phase !is Closing,
{
}

/// The application of a plan of a single action.
#[derive(Debug)]
pub struct SingleSession {
    entry: SingleEntry,
    input: ResolvedApplyInput,
    phase: SinglePhase,
    plan: Option<Plan>,
}

#[derive(Debug)]
enum SinglePhase {
    Locking,
    Recovering { session: RecoverySession },
    Planning,
    OpeningExecutor,
    Checking,
    CheckingState,
    Hashing,
    Confirming { hash: String },
    Beginning { hash: String },
    Starting { id: ActionId },
    Executing { id: ActionId, recorded: RecordedAction },
    Committing { id: ActionId },
    Recording { id: ActionId, status: ActionStatus, error: ResourceExecutionError },
    Closing { end: SingleEnd },
    Ended { outcome: Result<SingleEnd, ApplyError> },
}

spec fn phase_view(phase: SinglePhase) -> SinglePhaseView {
    match phase {
        SinglePhase::Locking => SinglePhaseView::Locking,
        SinglePhase::Recovering { session } => SinglePhaseView::Recovering { session: session@ },
        SinglePhase::Planning => SinglePhaseView::Planning,
        SinglePhase::OpeningExecutor => SinglePhaseView::OpeningExecutor,
        SinglePhase::Checking => SinglePhaseView::Checking,
        SinglePhase::CheckingState => SinglePhaseView::CheckingState,
        SinglePhase::Hashing => SinglePhaseView::Hashing,
        SinglePhase::Confirming { hash } => SinglePhaseView::Confirming { hash: hash@ },
        SinglePhase::Beginning { hash } => SinglePhaseView::Beginning { hash: hash@ },
        SinglePhase::Starting { id } => SinglePhaseView::Starting { id: id@ },
        SinglePhase::Executing { id, recorded } => SinglePhaseView::Executing {
            id: id@,
            recorded: recorded@,
        },
        SinglePhase::Committing { id } => SinglePhaseView::Committing { id: id@ },
        SinglePhase::Recording { id, status, error } => SinglePhaseView::Recording {
            id: id@,
            status,
            error,
        },
        SinglePhase::Closing { end } => SinglePhaseView::Closing { end },
        SinglePhase::Ended { outcome } => SinglePhaseView::Ended { outcome },
    }
}

spec fn view_of(
    entry: SingleEntry,
    input: ResolvedApplyInput,
    phase: SinglePhase,
    plan: Option<Plan>,
) -> SingleView {
    SingleView {
        entry,
        desired: (input.desired.profile(), input.desired@),
        sources: source_views(input.verified_sources@),
        phase: phase_view(phase),
        plan: match plan {
            Some(plan) => Some(plan@),
            None => None,
        },
    }
}

impl View for SingleSession {
    type V = SingleView;

    closed spec fn view(&self) -> SingleView {
        view_of(self.entry, self.input, self.phase, self.plan)
    }
}

fn start(entry: SingleEntry, input: ResolvedApplyInput) -> (session: SingleSession)
    ensures
        session@ == single_start(entry, input),
{
    SingleSession { entry, input, phase: SinglePhase::Locking, plan: None }
}

fn stop(error: ApplyError) -> (phase: SinglePhase)
    ensures
        phase_view(phase) == (SinglePhaseView::Ended { outcome: Err(error) }),
{
    SinglePhase::Ended { outcome: Err(error) }
}

fn to_recovering(session: RecoverySession, Ghost(before): Ghost<SingleView>) -> (phase: SinglePhase)
    ensures
        phase_view(phase) == before.recovering(session@).phase,
        before.recovering(session@) == before.at(phase_view(phase)),
{
    if !session.has_ended() {
        return SinglePhase::Recovering { session };
    }
    match reconcile_active_operation_with_action(session) {
        Some(end) => match end.outcome {
            Ok(uncertain) => if uncertain {
                stop(ApplyError::RecoveryRequired)
            } else {
                SinglePhase::Planning
            },
            Err(error) => stop(ApplyError::State(error)),
        },
        None => {
            assert(false);
            SinglePhase::Planning
        },
    }
}

fn to_executed(
    id: ActionId,
    error: Option<ResourceExecutionError>,
    recorded: &RecordedAction,
    Ghost(before): Ghost<SingleView>,
) -> (phase: SinglePhase)
    ensures
        before.executed(id@, error) == before.at(phase_view(phase)),
{
    let error = match error {
        None => return SinglePhase::Committing { id },
        Some(error) => error,
    };
    let classification = match classify_resource_execution_error(recorded, &error, &None) {
        ClassificationStep::Classified { classification } => classification,
        ClassificationStep::Inspect { .. } => {
            assert(false);
            ExecutionClassification::Uncertain
        },
    };
    match classify_execution(Err(error), classification) {
        ExecutionOutcome::Succeeded => SinglePhase::Committing { id },
        ExecutionOutcome::Failed(error) => SinglePhase::Recording {
            id,
            status: ActionStatus::Failed,
            error,
        },
        ExecutionOutcome::Uncertain(error) => SinglePhase::Recording {
            id,
            status: ActionStatus::Uncertain,
            error,
        },
    }
}

/// What the application of a single action came to.
#[derive(Debug)]
pub enum SingleActionApplyResult {
    Applied { resource_id: FullyQualifiedResourceId, kind: ActionKind },
    Blocked { plan: Plan },
    Declined { plan: Plan },
    Failed { error: ResourceExecutionError },
    Uncertain { error: ResourceExecutionError },
}

/// Whether a result is what an application of a single action came to.
pub open spec fn single_result(
    result: SingleActionApplyResult,
    single: SingleView,
    end: SingleEnd,
) -> bool {
    match end {
        SingleEnd::Applied => result matches SingleActionApplyResult::Applied { resource_id, kind }
            && resource_id@ == single.action().resource_id() && kind == single.action().kind(),
        SingleEnd::Blocked => result matches SingleActionApplyResult::Blocked { plan }
            && single.plan == Some(plan@),
        SingleEnd::Declined => result matches SingleActionApplyResult::Declined { plan }
            && single.plan == Some(plan@),
        SingleEnd::Failed { error } => result == (SingleActionApplyResult::Failed { error }),
        SingleEnd::Uncertain { error } => result == (SingleActionApplyResult::Uncertain { error }),
    }
}

impl ApplyCoordinator {
    /// Starts the application of a plan of one create.
    pub fn apply_create_link(&self, resolved: ResolvedApplyInput) -> (session: SingleSession)
        ensures
            session@ == single_start(SingleEntry::Create, resolved),
    {
        start(SingleEntry::Create, resolved)
    }

    /// Starts the application of a plan of one removal or forgetting.
    pub fn apply_stale_link(&self, resolved: ResolvedApplyInput) -> (session: SingleSession)
        ensures
            session@ == single_start(SingleEntry::Stale, resolved),
    {
        start(SingleEntry::Stale, resolved)
    }

    /// Starts the application of a plan of one replacement.
    pub fn apply_replace_link(&self, resolved: ResolvedApplyInput) -> (session: SingleSession)
        ensures
            session@ == single_start(SingleEntry::Replace, resolved),
    {
        start(SingleEntry::Replace, resolved)
    }

    /// Starts the application of a plan of one change of ownership.
    pub fn apply_replace_ownership(&self, resolved: ResolvedApplyInput) -> (session: SingleSession)
        ensures
            session@ == single_start(SingleEntry::ReplaceOwnership, resolved),
    {
        start(SingleEntry::ReplaceOwnership, resolved)
    }

    /// Starts the application of a plan of one relocation.
    pub fn apply_relocate_link(&self, resolved: ResolvedApplyInput) -> (session: SingleSession)
        ensures
            session@ == single_start(SingleEntry::Relocate, resolved),
    {
        start(SingleEntry::Relocate, resolved)
    }

    /// Takes the answer to the last request: the step that every entry shares.
    pub fn apply_single_action(&self, session: SingleSession, reply: SingleReply) -> (next:
        SingleSession)
        ensures
            session@.answered(reply, next@),
    {
        let ghost before = session@;
        let ghost given = reply;
        proof {
            use_type_invariant(&session);
        }
        let SingleSession { entry, input, phase, plan } = session;
        let (phase, plan) = match (phase, reply) {
            (SinglePhase::Locking, SingleReply::Locked { outcome }) => (
                match outcome {
                    Err(error) => stop(ApplyError::State(error)),
                    Ok(entries) => to_recovering(
                        reconcile_active_operation(entries),
                        Ghost(before),
                    ),
                },
                plan,
            ),
            (SinglePhase::Recovering { session }, SingleReply::Recovery { reply }) => (
                to_recovering(
                    reconcile_active_operation_with_action_and_cleanup(session, reply),
                    Ghost(before),
                ),
                plan,
            ),
            (SinglePhase::Planning, SingleReply::Planned { outcome }) => match outcome {
                Err(message) => (stop(ApplyError::InitialInspection { message }), plan),
                Ok(fresh) => {
                    let phase = if !fresh.is_executable() {
                        SinglePhase::Ended { outcome: Ok(SingleEnd::Blocked) }
                    } else {
                        match self.prepare_entry(entry, &fresh, &input) {
                            Ok(_) => SinglePhase::OpeningExecutor,
                            Err(error) => {
                                let ghost here = SingleView { plan: Some(fresh@), ..before };
                                let ghost reason = error;
                                let phase = stop(error);
                                assert(here.stopped(reason) == here.at(phase_view(phase)));
                                phase
                            },
                        }
                    };
                    (phase, Some(fresh))
                },
            },
            (SinglePhase::OpeningExecutor, SingleReply::Opened { error }) => (
                match error {
                    Some(message) => stop(ApplyError::InitialInspection { message }),
                    None => SinglePhase::Checking,
                },
                plan,
            ),
            (SinglePhase::Checking, SingleReply::Preflighted { failure }) => (
                match failure {
                    Some(failure) => stop(preflight_error(failure)),
                    None => SinglePhase::CheckingState,
                },
                plan,
            ),
            (SinglePhase::CheckingState, SingleReply::Stored { error }) => (
                match error {
                    Some(error) => stop(ApplyError::StatePreflight(error)),
                    None => SinglePhase::Hashing,
                },
                plan,
            ),
            (SinglePhase::Hashing, SingleReply::Hashed { outcome }) => (
                match outcome {
                    Err(message) => stop(ApplyError::DesiredHash { message }),
                    Ok(hash) => SinglePhase::Confirming { hash },
                },
                plan,
            ),
            (SinglePhase::Confirming { hash }, SingleReply::Confirmed { accepted }) => (
                if accepted {
                    SinglePhase::Beginning { hash }
                } else {
                    SinglePhase::Ended { outcome: Ok(SingleEnd::Declined) }
                },
                plan,
            ),
            (SinglePhase::Beginning { .. }, SingleReply::Began { outcome }) => (
                match outcome {
                    Err(error) => stop(ApplyError::State(error)),
                    Ok(id) => SinglePhase::Starting { id },
                },
                plan,
            ),
            (SinglePhase::Starting { id }, SingleReply::Marked { outcome }) => (
                match outcome {
                    Err(error) => stop(ApplyError::State(error)),
                    Ok(recorded) => SinglePhase::Executing { id, recorded },
                },
                plan,
            ),
            (SinglePhase::Executing { id, recorded }, SingleReply::Executed { error }) => (
                to_executed(id, error, &recorded, Ghost(before)),
                plan,
            ),
            (SinglePhase::Committing { .. }, SingleReply::Stored { error }) => (
                match error {
                    Some(error) => stop(ApplyError::State(error)),
                    None => SinglePhase::Closing { end: SingleEnd::Applied },
                },
                plan,
            ),
            (
                SinglePhase::Recording { status, error, .. },
                SingleReply::Stored { error: refusal },
            ) => (
                match refusal {
                    Some(refusal) => stop(ApplyError::State(refusal)),
                    None => match status {
                        ActionStatus::Failed => SinglePhase::Closing {
                            end: SingleEnd::Failed { error },
                        },
                        _ => SinglePhase::Ended { outcome: Ok(SingleEnd::Uncertain { error }) },
                    },
                },
                plan,
            ),
            (SinglePhase::Closing { end }, SingleReply::Stored { error }) => (
                match error {
                    Some(error) => stop(ApplyError::State(error)),
                    None => SinglePhase::Ended { outcome: Ok(end) },
                },
                plan,
            ),
            (phase, _) => (phase, plan),
        };
        proof {
            assert(before.answered(given, view_of(entry, input, phase, plan)));
            single_stays_sound(before, given, view_of(entry, input, phase, plan));
        }
        SingleSession { entry, input, phase, plan }
    }
}

impl SingleSession {
    #[verifier::type_invariant]
    spec fn keeps(self) -> bool {
        self@.sound()
    }

    fn check(&self) -> (call: PreflightCall)
        requires
            self@.prepared(),
        ensures
            is_check_for(call, self@.action(), self@.sources),
    {
        match &self.plan {
            Some(plan) => match single_action(plan, self.entry) {
                Some(action) => {
                    let member = PlannedResourceAction::FileLink(action.clone());
                    match preflight(&member, &self.input) {
                        Ok(call) => call,
                        Err(_) => {
                            assert(false);
                            PreflightCall { name: PreflightName::Remove, source: None }
                        },
                    }
                },
                None => {
                    assert(false);
                    PreflightCall { name: PreflightName::Remove, source: None }
                },
            },
            None => {
                assert(false);
                PreflightCall { name: PreflightName::Remove, source: None }
            },
        }
    }

    /// The one action of the plan, once there is one.
    pub fn action(&self) -> (action: Option<&PlannedAction>)
        ensures
            match action {
                Some(action) => self@.plan is Some && is_single(self@.entry, self@.plan->0.links)
                    && action@ == self@.action(),
                None => self@.plan is None || !is_single(self@.entry, self@.plan->0.links),
            },
    {
        match &self.plan {
            Some(plan) => single_action(plan, self.entry),
            None => None,
        }
    }

    /// The desired resources and their sources.
    pub fn input(&self) -> (input: &ResolvedApplyInput)
        ensures
            self@.desired == (input.desired.profile(), input.desired@),
            self@.sources == source_views(input.verified_sources@),
    {
        &self.input
    }

    /// The plan, once it has been made.
    pub fn plan(&self) -> (plan: Option<&Plan>)
        ensures
            match plan {
                Some(plan) => self@.plan == Some(plan@),
                None => self@.plan is None,
            },
    {
        match &self.plan {
            Some(plan) => Some(plan),
            None => None,
        }
    }

    /// The hash to put on record with the action, when the application asks for that.
    pub fn hash_to_record(&self) -> (hash: Option<&String>)
        ensures
            match hash {
                Some(hash) => self@.phase == (SinglePhaseView::Beginning { hash: hash@ }),
                None => self@.phase !is Beginning,
            },
    {
        match &self.phase {
            SinglePhase::Beginning { hash } => Some(hash),
            _ => None,
        }
    }

    /// What the application needs next.
    pub fn request(&self) -> (request: SingleRequest)
        ensures
            self@.requests(request),
            self@.sound(),
    {
        proof {
            use_type_invariant(self);
        }
        match &self.phase {
            SinglePhase::Locking => SingleRequest::Lock,
            SinglePhase::Recovering { session } => SingleRequest::Recovery {
                request: session.request(),
            },
            SinglePhase::Planning => SingleRequest::Plan,
            SinglePhase::OpeningExecutor => SingleRequest::OpenExecutor,
            SinglePhase::Checking => SingleRequest::Preflight { call: self.check() },
            SinglePhase::CheckingState => SingleRequest::PreflightState,
            SinglePhase::Hashing => SingleRequest::Hash,
            SinglePhase::Confirming { .. } => SingleRequest::Confirm,
            SinglePhase::Beginning { .. } => SingleRequest::Begin,
            SinglePhase::Starting { id } => SingleRequest::MarkRunning { action_id: id.clone() },
            SinglePhase::Executing { recorded, .. } => {
                let call = self.check();
                match self.action() {
                    Some(action) => SingleRequest::Execute {
                        name: to_single_call(action, recorded),
                        source: call.source,
                    },
                    None => {
                        assert(false);
                        SingleRequest::Finished
                    },
                }
            },
            SinglePhase::Committing { id } => SingleRequest::Commit { action_id: id.clone() },
            SinglePhase::Recording { id, status, .. } => SingleRequest::Record {
                action_id: id.clone(),
                status: *status,
            },
            SinglePhase::Closing { .. } => SingleRequest::Close,
            SinglePhase::Ended { .. } => SingleRequest::Finished,
        }
    }

    /// What the application came to, once it has ended.
    pub fn finish(self) -> (end: Option<Result<SingleActionApplyResult, ApplyError>>)
        ensures
            match self@.phase {
                SinglePhaseView::Ended { outcome } => match outcome {
                    Ok(ended) => end matches Some(Ok(result)) && single_result(
                        result,
                        self@,
                        ended,
                    ),
                    Err(error) => end == Some(Err::<SingleActionApplyResult, ApplyError>(error)),
                },
                _ => end is None,
            },
    {
        proof {
            use_type_invariant(&self);
        }
        let SingleSession { entry, input, phase, plan } = self;
        let end = match phase {
            SinglePhase::Ended { outcome } => match outcome {
                Ok(end) => end,
                Err(error) => return Some(Err(error)),
            },
            _ => return None,
        };
        match (end, plan) {
            (SingleEnd::Failed { error }, _) => Some(
                Ok(SingleActionApplyResult::Failed { error }),
            ),
            (SingleEnd::Uncertain { error }, _) => Some(
                Ok(SingleActionApplyResult::Uncertain { error }),
            ),
            (SingleEnd::Blocked, Some(plan)) => Some(Ok(SingleActionApplyResult::Blocked { plan })),
            (SingleEnd::Declined, Some(plan)) => Some(
                Ok(SingleActionApplyResult::Declined { plan }),
            ),
            (SingleEnd::Applied, Some(plan)) => match single_action(&plan, entry) {
                Some(action) => Some(
                    Ok(
                        SingleActionApplyResult::Applied {
                            resource_id: action.resource_id().clone(),
                            kind: action.kind(),
                        },
                    ),
                ),
                None => {
                    assert(false);
                    None
                },
            },
            (_, None) => {
                assert(false);
                None
            },
        }
    }
}

/// A plan is taken as one create exactly if that is its one link action. Every other plan is
/// refused with the kinds of its link actions, in order.
pub proof fn only_a_plan_of_one_create_is_taken_as_one(
    plan: Plan,
    outcome: Result<&PlannedAction, ApplyError>,
)
    requires
        call_ensures(require_single_create_action, (&plan,), outcome),
    ensures
        outcome is Ok <==> plan@.links.len() == 1 && plan@.links[0].kind() is CreateLink,
        (outcome matches Ok(action) ==> action@ == plan@.links[0]),
        (outcome matches Err(error) ==> (error matches ApplyError::SliceFourRequiresSingleCreateAction {
            action_kinds,
        } && action_kinds@.len() == plan@.links.len() && forall|i: int|
            0 <= i < action_kinds@.len() ==> #[trigger] action_kinds@[i] == plan@.links[i].kind())),
{
}

/// A plan is taken as one removal or forgetting of a link exactly if that is its one link action. Every other plan is
/// refused with the kinds of its link actions, in order.
pub proof fn only_a_plan_of_one_stale_link_is_taken_as_one(
    plan: Plan,
    outcome: Result<&PlannedAction, ApplyError>,
)
    requires
        call_ensures(require_single_stale_action, (&plan,), outcome),
    ensures
        outcome is Ok <==> plan@.links.len() == 1 && (plan@.links[0].kind() is RemoveLink
            || plan@.links[0].kind() is ForgetMissing),
        (outcome matches Ok(action) ==> action@ == plan@.links[0]),
        (outcome matches Err(error) ==> (error matches ApplyError::SliceFiveRequiresSingleStaleAction {
            action_kinds,
        } && action_kinds@.len() == plan@.links.len() && forall|i: int|
            0 <= i < action_kinds@.len() ==> #[trigger] action_kinds@[i] == plan@.links[i].kind())),
{
}

/// A plan is taken as one replacement exactly if that is its one link action. Every other plan is
/// refused with the kinds of its link actions, in order.
pub proof fn only_a_plan_of_one_replacement_is_taken_as_one(
    plan: Plan,
    outcome: Result<&PlannedAction, ApplyError>,
)
    requires
        call_ensures(require_single_replace_action, (&plan,), outcome),
    ensures
        outcome is Ok <==> plan@.links.len() == 1 && plan@.links[0].kind() is ReplaceLink,
        (outcome matches Ok(action) ==> action@ == plan@.links[0]),
        (outcome matches Err(error) ==> (error matches ApplyError::SliceSixRequiresSingleReplaceAction {
            action_kinds,
        } && action_kinds@.len() == plan@.links.len() && forall|i: int|
            0 <= i < action_kinds@.len() ==> #[trigger] action_kinds@[i] == plan@.links[i].kind())),
{
}

/// A plan is taken as one change of ownership exactly if that is its one link action. Every other plan is
/// refused with the kinds of its link actions, in order.
pub proof fn only_a_plan_of_one_change_of_ownership_is_taken_as_one(
    plan: Plan,
    outcome: Result<&PlannedAction, ApplyError>,
)
    requires
        call_ensures(require_single_replace_ownership_action, (&plan,), outcome),
    ensures
        outcome is Ok <==> plan@.links.len() == 1 && plan@.links[0].kind() is ReplaceOwnership,
        (outcome matches Ok(action) ==> action@ == plan@.links[0]),
        (outcome matches Err(error) ==> (error matches ApplyError::SliceSixRequiresSingleReplaceOwnershipAction {
            action_kinds,
        } && action_kinds@.len() == plan@.links.len() && forall|i: int|
            0 <= i < action_kinds@.len() ==> #[trigger] action_kinds@[i] == plan@.links[i].kind())),
{
}

/// A plan is taken as one relocation exactly if that is its one link action. Every other plan is
/// refused with the kinds of its link actions, in order.
pub proof fn only_a_plan_of_one_relocation_is_taken_as_one(
    plan: Plan,
    outcome: Result<&PlannedAction, ApplyError>,
)
    requires
        call_ensures(require_single_relocate_action, (&plan,), outcome),
    ensures
        outcome is Ok <==> plan@.links.len() == 1 && plan@.links[0].kind() is RelocateLink,
        (outcome matches Ok(action) ==> action@ == plan@.links[0]),
        (outcome matches Err(error) ==> (error matches ApplyError::SliceSixRequiresSingleRelocateAction {
            action_kinds,
        } && action_kinds@.len() == plan@.links.len() && forall|i: int|
            0 <= i < action_kinds@.len() ==> #[trigger] action_kinds@[i] == plan@.links[i].kind())),
{
}

/// A stale link is checked as what is to be done to it, and nothing else is a stale link.
pub proof fn stale_link_is_checked_as_what_is_done_to_it(
    action: PlannedAction,
    outcome: Result<PreflightName, StaleLinkExecutionError>,
)
    requires
        call_ensures(preflight_stale_action, (&action,), outcome),
    ensures
        outcome == Ok::<PreflightName, StaleLinkExecutionError>(PreflightName::Remove)
            <==> action@.kind() is RemoveLink,
        outcome == Ok::<PreflightName, StaleLinkExecutionError>(PreflightName::ForgetMissing)
            <==> action@.kind() is ForgetMissing,
        outcome is Err <==> action@.kind() !is RemoveLink && action@.kind() !is ForgetMissing,
        (outcome matches Err(error) ==> error == (StaleLinkExecutionError::UnsupportedAction {
            kind: action@.kind(),
        })),
{
}

/// The call that executes a single action is decided one to one by its kind. A change of ownership
/// replaces the link exactly if the record says so.
pub proof fn single_call_is_decided_by_the_kind(action: ActionView, recorded: RecordedView)
    ensures
        single_call(action, recorded) is CreateLink <==> action.kind() is CreateLink,
        single_call(action, recorded) is RemoveLink <==> action.kind() is RemoveLink,
        single_call(action, recorded) is ForgetMissingLink <==> action.kind() is ForgetMissing,
        single_call(action, recorded) is RelocateLink <==> action.kind() is RelocateLink,
        single_call(action, recorded) is SameSourceHandoff <==> action.kind() is ReplaceOwnership
            && recorded.facts !is Replacement,
        action.kind() is ReplaceLink ==> single_call(action, recorded) is ReplaceLink,
        action.kind() is ReplaceOwnership && recorded.facts is Replacement ==> single_call(
            action,
            recorded,
        ) is ReplaceLink,
{
}

/// An executed single action is committed exactly if it returned or its error shows that it is done.
/// It is recorded as failed exactly if its error shows that nothing was done, and as uncertain in
/// every other case. The error is kept.
pub proof fn single_action_is_recorded_as_what_is_known(
    single: SingleView,
    id: Seq<char>,
    recorded: RecordedView,
    error: Option<ResourceExecutionError>,
    next: SingleView,
)
    requires
        single.sound(),
        single.phase == (SinglePhaseView::Executing { id, recorded }),
        single.answered(SingleReply::Executed { error }, next),
    ensures
        next.phase == (SinglePhaseView::Committing { id }) <==> (error matches Some(error)
            ==> error_shows(error) == Some(ExecutionClassification::Succeeded)),
        (error matches Some(error) ==> (error_shows(error) == Some(ExecutionClassification::Failed)
            <==> next.phase == (SinglePhaseView::Recording {
            id,
            status: ActionStatus::Failed,
            error,
        }))),
        (error matches Some(error) ==> (error_shows(error) != Some(ExecutionClassification::Failed)
            && error_shows(error) != Some(ExecutionClassification::Succeeded) <==> next.phase == (
        SinglePhaseView::Recording { id, status: ActionStatus::Uncertain, error }))),
{
}

/// What stops the application of a single action, and what lets it go on, before anything is on
/// record.
pub proof fn single_action_goes_on_with_a_checked_plan(
    single: SingleView,
    reply: SingleReply,
    next: SingleView,
)
    requires
        single.sound(),
        single.answered(reply, next),
    ensures
        single.phase is Locking ==> (reply matches SingleReply::Locked { outcome: Err(error) }
            ==> next.phase == (SinglePhaseView::Ended { outcome: Err(ApplyError::State(error)) })),
        single.phase is Planning ==> (reply matches SingleReply::Planned { outcome: Err(message) }
            ==> next.phase == (SinglePhaseView::Ended {
            outcome: Err(ApplyError::InitialInspection { message }),
        })),
        single.phase is Planning ==> (reply matches SingleReply::Planned { outcome: Ok(plan) }
            ==> next.plan == Some(plan@) && (next.phase == (SinglePhaseView::Ended {
            outcome: Ok(SingleEnd::Blocked),
        }) <==> !plan@.executable()) && (next.phase is OpeningExecutor ==> plan@.links.len() == 1)),
        single.phase is OpeningExecutor ==> (reply matches SingleReply::Opened {
            error: Some(message),
        } ==> next.phase == (SinglePhaseView::Ended {
            outcome: Err(ApplyError::InitialInspection { message }),
        })),
        single.phase is OpeningExecutor ==> (reply matches SingleReply::Opened { error: None }
            ==> next.phase is Checking),
        single.phase is Checking ==> (reply matches SingleReply::Preflighted {
            failure: Some(failure),
        } ==> next.phase == (SinglePhaseView::Ended {
            outcome: Err(
                match failure {
                    PreflightFailure::Create(error) => ApplyError::Preflight(error),
                    PreflightFailure::Replace(error) => ApplyError::ReplacePreflight(error),
                    PreflightFailure::Relocate(error) => ApplyError::RelocatePreflight(error),
                    PreflightFailure::Stale(error) => ApplyError::StalePreflight(error),
                    PreflightFailure::Copy(error) => ApplyError::CopyPreflight(error),
                },
            ),
        })),
        single.phase is Checking ==> (reply matches SingleReply::Preflighted { failure: None }
            ==> next.phase is CheckingState),
        single.phase is CheckingState ==> (reply matches SingleReply::Stored { error: Some(error) }
            ==> next.phase == (SinglePhaseView::Ended {
            outcome: Err(ApplyError::StatePreflight(error)),
        })),
        single.phase is CheckingState ==> (reply matches SingleReply::Stored { error: None }
            ==> next.phase is Hashing),
        single.phase is Hashing ==> (reply matches SingleReply::Hashed { outcome: Err(message) }
            ==> next.phase == (SinglePhaseView::Ended {
            outcome: Err(ApplyError::DesiredHash { message }),
        })),
        single.phase is Hashing ==> (reply matches SingleReply::Hashed { outcome: Ok(hash) }
            ==> next.phase == (SinglePhaseView::Confirming { hash: hash@ })),
        (single.phase matches SinglePhaseView::Confirming { hash } ==> (reply matches
            SingleReply::Confirmed { accepted: true } ==> next.phase == (
        SinglePhaseView::Beginning { hash }))),
        single.phase is Confirming ==> (reply matches SingleReply::Confirmed { accepted: false }
            ==> next.phase == (SinglePhaseView::Ended { outcome: Ok(SingleEnd::Declined) })),
{
}

/// What stops the application of a single action under its operation, and how it ends: a committed
/// action is closed as applied, a failed one is closed as failed, and an uncertain one is left open.
pub proof fn single_action_ends_by_its_operation(
    single: SingleView,
    reply: SingleReply,
    next: SingleView,
)
    requires
        single.sound(),
        single.answered(reply, next),
    ensures
        single.phase is Beginning ==> (reply matches SingleReply::Began { outcome: Err(error) }
            ==> next.phase == (SinglePhaseView::Ended { outcome: Err(ApplyError::State(error)) })),
        single.phase is Beginning ==> (reply matches SingleReply::Began { outcome: Ok(id) }
            ==> next.phase == (SinglePhaseView::Starting { id: id@ })),
        single.phase is Starting ==> (reply matches SingleReply::Marked { outcome: Err(error) }
            ==> next.phase == (SinglePhaseView::Ended { outcome: Err(ApplyError::State(error)) })),
        (single.phase matches SinglePhaseView::Starting { id } ==> (reply matches
            SingleReply::Marked { outcome: Ok(recorded) } ==> next.phase == (
        SinglePhaseView::Executing { id, recorded: recorded@ }))),
        single.phase is Committing || single.phase is Recording || single.phase is Closing ==> (
        reply matches SingleReply::Stored { error: Some(error) } ==> next.phase == (
        SinglePhaseView::Ended { outcome: Err(ApplyError::State(error)) })),
        single.phase is Committing && reply == (SingleReply::Stored { error: None })
            ==> next.phase == (SinglePhaseView::Closing { end: SingleEnd::Applied }),
        (single.phase matches SinglePhaseView::Recording { status: ActionStatus::Failed, error, .. }
            ==> (reply == (SingleReply::Stored { error: None }) ==> next.phase == (
        SinglePhaseView::Closing { end: SingleEnd::Failed { error } }))),
        (single.phase matches SinglePhaseView::Recording {
            status: ActionStatus::Uncertain,
            error,
            ..
        } ==> (reply == (SingleReply::Stored { error: None }) ==> next.phase == (
        SinglePhaseView::Ended { outcome: Ok(SingleEnd::Uncertain { error }) }))),
        (single.phase matches SinglePhaseView::Closing { end } ==> (reply == (SingleReply::Stored {
            error: None,
        }) ==> next.phase == (SinglePhaseView::Ended { outcome: Ok(end) }))),
        (single.phase matches SinglePhaseView::Recovering { session } ==> (reply matches
            SingleReply::Recovery { reply } ==> match session.answered(reply).phase {
            PhaseView::Ended { uncertain: false } => next.phase is Planning,
            PhaseView::Ended { uncertain: true } => next.phase == (SinglePhaseView::Ended {
                outcome: Err(ApplyError::RecoveryRequired),
            }),
            PhaseView::Failed { error } => next.phase == (SinglePhaseView::Ended {
                outcome: Err(ApplyError::State(error)),
            }),
            _ => next.phase == (SinglePhaseView::Recovering { session: session.answered(reply) }),
        })),
        single.phase is Ended ==> next == single,
{
}

/// What the application of a single action asks for is told by where it stands. What takes a link
/// away is executed without a source, and everything else with the verified source of its resource.
pub proof fn single_action_asks_for_what_it_stands_at(single: SingleView, request: SingleRequest)
    requires
        single.sound(),
        single.requests(request),
    ensures
        request is Lock <==> single.phase is Locking,
        request is Recovery <==> single.phase is Recovering,
        request is Plan <==> single.phase is Planning,
        request is OpenExecutor <==> single.phase is OpeningExecutor,
        request is Preflight <==> single.phase is Checking,
        request is PreflightState <==> single.phase is CheckingState,
        request is Hash <==> single.phase is Hashing,
        request is Confirm <==> single.phase is Confirming,
        request is Begin <==> single.phase is Beginning,
        request is MarkRunning <==> single.phase is Starting,
        request is Execute <==> single.phase is Executing,
        request is Commit <==> single.phase is Committing,
        request is Record <==> single.phase is Recording,
        request is Close <==> single.phase is Closing,
        request is Finished <==> single.phase is Ended,
        (request matches SingleRequest::Commit { action_id } ==> single.phase == (
        SinglePhaseView::Committing { id: action_id@ })),
        (request matches SingleRequest::MarkRunning { action_id } ==> single.phase == (
        SinglePhaseView::Starting { id: action_id@ })),
        (request matches SingleRequest::Record { action_id, status } ==> (single.phase matches
            SinglePhaseView::Recording { id, status: known, .. } && action_id@ == id && status
            == known)),
        single.plan->0.links[0].is_link() ==> (request matches SingleRequest::Execute { source, .. }
            ==> (source is None <==> single.plan->0.links[0] is Remove || single.plan->0.links[0]
            is ForgetMissing)),
{
    let action = single.plan->0.links[0];
    if single.phase is Executing {
        assert(!lacks_source(action, single.sources));
    }
}

/// What the application of a single action reports is what it came to.
pub proof fn single_action_reports_what_it_came_to(
    result: SingleActionApplyResult,
    single: SingleView,
    end: SingleEnd,
)
    requires
        single_result(result, single, end),
    ensures
        result is Applied <==> end is Applied,
        result is Blocked <==> end is Blocked,
        result is Declined <==> end is Declined,
        result is Failed <==> end is Failed,
        result is Uncertain <==> end is Uncertain,
        (result matches SingleActionApplyResult::Applied { resource_id, kind } ==> resource_id@
            == single.plan->0.links[0].resource_id() && kind == single.plan->0.links[0].kind()),
        (result matches SingleActionApplyResult::Failed { error } ==> end == (SingleEnd::Failed {
            error,
        })),
        (result matches SingleActionApplyResult::Uncertain { error } ==> end == (
        SingleEnd::Uncertain { error })),
{
}

/// The application of one create starts as that, with what was resolved, at the lock.
pub proof fn apply_create_link_starts_as_its_own_entry(
    coordinator: ApplyCoordinator,
    resolved: ResolvedApplyInput,
    session: SingleSession,
)
    requires
        call_ensures(ApplyCoordinator::apply_create_link, (&coordinator, resolved), session),
    ensures
        session@.entry is Create,
        session@.phase is Locking,
        session@.plan is None,
        session@.desired == (resolved.desired.profile(), resolved.desired@),
        session@.sources == source_views(resolved.verified_sources@),
{
}

/// The application of one removal or forgetting starts as that, with what was resolved, at the lock.
pub proof fn apply_stale_link_starts_as_its_own_entry(
    coordinator: ApplyCoordinator,
    resolved: ResolvedApplyInput,
    session: SingleSession,
)
    requires
        call_ensures(ApplyCoordinator::apply_stale_link, (&coordinator, resolved), session),
    ensures
        session@.entry is Stale,
        session@.phase is Locking,
        session@.plan is None,
        session@.desired == (resolved.desired.profile(), resolved.desired@),
        session@.sources == source_views(resolved.verified_sources@),
{
}

/// The application of one replacement starts as that, with what was resolved, at the lock.
pub proof fn apply_replace_link_starts_as_its_own_entry(
    coordinator: ApplyCoordinator,
    resolved: ResolvedApplyInput,
    session: SingleSession,
)
    requires
        call_ensures(ApplyCoordinator::apply_replace_link, (&coordinator, resolved), session),
    ensures
        session@.entry is Replace,
        session@.phase is Locking,
        session@.plan is None,
        session@.desired == (resolved.desired.profile(), resolved.desired@),
        session@.sources == source_views(resolved.verified_sources@),
{
}

/// The application of one change of ownership starts as that, with what was resolved, at the lock.
pub proof fn apply_replace_ownership_starts_as_its_own_entry(
    coordinator: ApplyCoordinator,
    resolved: ResolvedApplyInput,
    session: SingleSession,
)
    requires
        call_ensures(ApplyCoordinator::apply_replace_ownership, (&coordinator, resolved), session),
    ensures
        session@.entry is ReplaceOwnership,
        session@.phase is Locking,
        session@.plan is None,
        session@.desired == (resolved.desired.profile(), resolved.desired@),
        session@.sources == source_views(resolved.verified_sources@),
{
}

/// The application of one relocation starts as that, with what was resolved, at the lock.
pub proof fn apply_relocate_link_starts_as_its_own_entry(
    coordinator: ApplyCoordinator,
    resolved: ResolvedApplyInput,
    session: SingleSession,
)
    requires
        call_ensures(ApplyCoordinator::apply_relocate_link, (&coordinator, resolved), session),
    ensures
        session@.entry is Relocate,
        session@.phase is Locking,
        session@.plan is None,
        session@.desired == (resolved.desired.profile(), resolved.desired@),
        session@.sources == source_views(resolved.verified_sources@),
{
}

/// One create is prepared exactly if it is the one link action of the plan and has the source that it
/// needs. The refusal tells a plan of another shape from a source that is not there.
pub proof fn apply_with_hooks_prepares_its_own_entry(
    coordinator: ApplyCoordinator,
    plan: Plan,
    resolved: ResolvedApplyInput,
    outcome: Result<PreparedAction, ApplyError>,
)
    requires
        call_ensures(ApplyCoordinator::apply_with_hooks, (&coordinator, &plan, &resolved), outcome),
    ensures
        ({
            let own = plan@.links.len() == 1 && plan@.links[0].kind() is CreateLink;
            &&& outcome matches Ok(prepared) ==> own && prepared.action@ == plan@.links[0]
                && prepared.call.name == preflight_name(plan@.links[0])
            &&& outcome is Err && own ==> outcome->Err_0 is MissingVerifiedSource
            &&& outcome is Err && !own ==> outcome->Err_0 is SliceFourRequiresSingleCreateAction
            &&& !own ==> outcome is Err
        }),
{
}

/// One stale link is prepared exactly if it is the one link action of the plan and has the source that it
/// needs. The refusal tells a plan of another shape from a source that is not there.
pub proof fn apply_stale_with_hooks_prepares_its_own_entry(
    coordinator: ApplyCoordinator,
    plan: Plan,
    resolved: ResolvedApplyInput,
    outcome: Result<PreparedAction, ApplyError>,
)
    requires
        call_ensures(ApplyCoordinator::apply_stale_with_hooks, (&coordinator, &plan, &resolved), outcome),
    ensures
        ({
            let own = plan@.links.len() == 1 && (plan@.links[0].kind() is RemoveLink
            || plan@.links[0].kind() is ForgetMissing);
            &&& outcome matches Ok(prepared) ==> own && prepared.action@ == plan@.links[0]
                && prepared.call.name == preflight_name(plan@.links[0])
            &&& outcome is Err && own ==> outcome->Err_0 is MissingVerifiedSource
            &&& outcome is Err && !own ==> outcome->Err_0 is SliceFiveRequiresSingleStaleAction
            &&& !own ==> outcome is Err
        }),
{
}

/// One replacement is prepared exactly if it is the one link action of the plan and has the source that it
/// needs. The refusal tells a plan of another shape from a source that is not there.
pub proof fn apply_replace_link_with_hooks_prepares_its_own_entry(
    coordinator: ApplyCoordinator,
    plan: Plan,
    resolved: ResolvedApplyInput,
    outcome: Result<PreparedAction, ApplyError>,
)
    requires
        call_ensures(ApplyCoordinator::apply_replace_link_with_hooks, (&coordinator, &plan, &resolved), outcome),
    ensures
        ({
            let own = plan@.links.len() == 1 && plan@.links[0].kind() is ReplaceLink;
            &&& outcome matches Ok(prepared) ==> own && prepared.action@ == plan@.links[0]
                && prepared.call.name == preflight_name(plan@.links[0])
            &&& outcome is Err && own ==> outcome->Err_0 is MissingVerifiedSource
            &&& outcome is Err && !own ==> outcome->Err_0 is SliceSixRequiresSingleReplaceAction
            &&& !own ==> outcome is Err
        }),
{
}

/// One change of ownership is prepared exactly if it is the one link action of the plan and has the source that it
/// needs. The refusal tells a plan of another shape from a source that is not there.
pub proof fn apply_replace_ownership_with_hooks_prepares_its_own_entry(
    coordinator: ApplyCoordinator,
    plan: Plan,
    resolved: ResolvedApplyInput,
    outcome: Result<PreparedAction, ApplyError>,
)
    requires
        call_ensures(ApplyCoordinator::apply_replace_ownership_with_hooks, (&coordinator, &plan, &resolved), outcome),
    ensures
        ({
            let own = plan@.links.len() == 1 && plan@.links[0].kind() is ReplaceOwnership;
            &&& outcome matches Ok(prepared) ==> own && prepared.action@ == plan@.links[0]
                && prepared.call.name == preflight_name(plan@.links[0])
            &&& outcome is Err && own ==> outcome->Err_0 is MissingVerifiedSource
            &&& outcome is Err && !own ==> outcome->Err_0 is SliceSixRequiresSingleReplaceOwnershipAction
            &&& !own ==> outcome is Err
        }),
{
}

} // verus!
