//! Recorded actions and operations.

use vstd::prelude::*;
use crate::domain::effects::EffectView;
use crate::domain::file_link::LinkTarget;
use crate::domain::ids::FullyQualifiedResourceId;
use crate::domain::known::KnownResource;
use crate::domain::paths::ResolvedPath;
use crate::domain::plan::{ActionKind, ConditionView, TargetCondition};
use crate::text::text_equal;

verus! {

/// How far a recorded action has come.
#[derive(Clone, Copy, Debug, PartialEq, Eq, Structural)]
pub enum ActionStatus {
    Pending,
    Running,
    Succeeded,
    Failed,
    Uncertain,
    Skipped,
}

impl ActionStatus {
    /// Whether an action with this status is finished.
    pub open spec fn closes(self) -> bool {
        self is Succeeded || self is Failed || self is Skipped
    }

    /// Whether an action with this status lets its operation be closed.
    pub fn closes_operation(&self) -> (closes: bool)
        ensures
            closes == self.closes(),
    {
        match self {
            ActionStatus::Succeeded => true,
            ActionStatus::Failed => true,
            ActionStatus::Skipped => true,
            ActionStatus::Pending => false,
            ActionStatus::Running => false,
            ActionStatus::Uncertain => false,
        }
    }
}

/// The identity of an action within its operation.
#[derive(Debug, PartialEq, Eq)]
pub struct ActionId {
    text: String,
}

impl View for ActionId {
    type V = Seq<char>;

    closed spec fn view(&self) -> Seq<char> {
        self.text@
    }
}

impl Clone for ActionId {
    fn clone(&self) -> (copy: Self)
        ensures
            copy@ == self@,
    {
        ActionId { text: self.text.clone() }
    }
}

impl ActionId {
    /// The identity written as `text`.
    pub fn new(text: String) -> (id: Self)
        ensures
            id@ == text@,
    {
        ActionId { text }
    }

    /// The written form of the identity.
    pub fn as_str(&self) -> (text: &str)
        ensures
            text@ == self@,
    {
        self.text.as_str()
    }

    /// Whether two identities are the same.
    pub fn same(&self, other: &Self) -> (equal: bool)
        ensures
            equal == (self@ == other@),
    {
        text_equal(self.as_str(), other.as_str())
    }
}

/// The identity of an operation.
#[derive(Debug, PartialEq, Eq)]
pub struct OperationId {
    text: String,
}

impl View for OperationId {
    type V = Seq<char>;

    closed spec fn view(&self) -> Seq<char> {
        self.text@
    }
}

impl Clone for OperationId {
    fn clone(&self) -> (copy: Self)
        ensures
            copy@ == self@,
    {
        OperationId { text: self.text.clone() }
    }
}

impl OperationId {
    /// The identity written as `text`.
    pub fn new(text: String) -> (id: Self)
        ensures
            id@ == text@,
    {
        OperationId { text }
    }

    /// The written form of the identity.
    pub fn as_str(&self) -> (text: &str)
        ensures
            text@ == self@,
    {
        self.text.as_str()
    }
}

/// The facts that a record keeps beside its conditions, by the way that the action works.
#[derive(Debug, PartialEq, Eq)]
pub enum RecordedFacts {
    /// Nothing more.
    Plain,
    /// A link is replaced through a recorded temporary.
    Replacement,
    /// A link moves to another target.
    Relocation {
        old_target_path: ResolvedPath,
        old_link_target: LinkTarget,
        new_target_path: ResolvedPath,
        new_link_target: LinkTarget,
    },
    /// A copy is written, over what its resource had before.
    Copy { old_effect: Option<KnownResource>, target_path: ResolvedPath },
}

/// The facts of a record as texts.
pub enum FactsView {
    Plain,
    Replacement,
    Relocation {
        old_target_path: Seq<char>,
        old_link_target: Seq<char>,
        new_target_path: Seq<char>,
        new_link_target: Seq<char>,
    },
    Copy { old_effect: Option<EffectView>, target_path: Seq<char> },
}

impl View for RecordedFacts {
    type V = FactsView;

    open spec fn view(&self) -> FactsView {
        match self {
            RecordedFacts::Plain => FactsView::Plain,
            RecordedFacts::Replacement => FactsView::Replacement,
            RecordedFacts::Relocation {
                old_target_path,
                old_link_target,
                new_target_path,
                new_link_target,
            } => FactsView::Relocation {
                old_target_path: old_target_path@,
                old_link_target: old_link_target@,
                new_target_path: new_target_path@,
                new_link_target: new_link_target@,
            },
            RecordedFacts::Copy { old_effect, target_path } => FactsView::Copy {
                old_effect: match old_effect {
                    Some(effect) => Some(effect@),
                    None => None,
                },
                target_path: target_path@,
            },
        }
    }
}

/// A recorded action as texts.
pub struct RecordedView {
    pub kind: ActionKind,
    pub resource_id: Seq<char>,
    pub target_path: Seq<char>,
    pub precondition: ConditionView,
    pub postcondition: ConditionView,
    pub status: ActionStatus,
    pub temporary_path: Option<Seq<char>>,
    pub facts: FactsView,
}

/// Whether an action of this kind can be told from these facts.
pub open spec fn facts_fit(kind: ActionKind, facts: FactsView) -> bool {
    &&& kind is RelocateLink ==> facts is Relocation
    &&& kind is RelocateCopy ==> facts is Copy
}

/// One action as the operation record keeps it.
#[derive(Debug, PartialEq, Eq)]
pub struct RecordedAction {
    kind: ActionKind,
    resource_id: FullyQualifiedResourceId,
    target_path: ResolvedPath,
    precondition: TargetCondition,
    postcondition: TargetCondition,
    status: ActionStatus,
    temporary_path: Option<ResolvedPath>,
    facts: RecordedFacts,
}

/// The reason a record cannot be read: a relocation without its facts.
#[derive(Clone, Copy, Debug, PartialEq, Eq, Structural)]
pub enum RecordedActionError {
    MissingRelocationFacts,
}

impl View for RecordedAction {
    type V = RecordedView;

    closed spec fn view(&self) -> RecordedView {
        RecordedView {
            kind: self.kind,
            resource_id: self.resource_id@,
            target_path: self.target_path@,
            precondition: self.precondition@,
            postcondition: self.postcondition@,
            status: self.status,
            temporary_path: match self.temporary_path {
                Some(path) => Some(path@),
                None => None,
            },
            facts: self.facts@,
        }
    }
}

impl RecordedAction {
    #[verifier::type_invariant]
    spec fn complete(self) -> bool {
        facts_fit(self.kind, self.facts@)
    }

    /// Reads a persisted record; a relocation must come with its facts.
    pub fn from_persisted(
        kind: ActionKind,
        resource_id: FullyQualifiedResourceId,
        target_path: ResolvedPath,
        precondition: TargetCondition,
        postcondition: TargetCondition,
        status: ActionStatus,
        temporary_path: Option<ResolvedPath>,
        facts: RecordedFacts,
    ) -> (outcome: Result<Self, RecordedActionError>)
        ensures
            match outcome {
                Ok(action) => facts_fit(kind, facts@) && action@ == (RecordedView {
                    kind,
                    resource_id: resource_id@,
                    target_path: target_path@,
                    precondition: precondition@,
                    postcondition: postcondition@,
                    status,
                    temporary_path: match temporary_path {
                        Some(path) => Some(path@),
                        None => None,
                    },
                    facts: facts@,
                }),
                Err(RecordedActionError::MissingRelocationFacts) => !facts_fit(kind, facts@),
            },
    {
        let fit = match kind {
            ActionKind::RelocateLink => match &facts {
                RecordedFacts::Relocation { .. } => true,
                _ => false,
            },
            ActionKind::RelocateCopy => match &facts {
                RecordedFacts::Copy { .. } => true,
                _ => false,
            },
            _ => true,
        };
        if !fit {
            return Err(RecordedActionError::MissingRelocationFacts);
        }
        Ok(
            RecordedAction {
                kind,
                resource_id,
                target_path,
                precondition,
                postcondition,
                status,
                temporary_path,
                facts,
            },
        )
    }

    /// What the action does. A relocation has its facts.
    pub fn kind(&self) -> (kind: ActionKind)
        ensures
            kind == self@.kind,
            facts_fit(self@.kind, self@.facts),
    {
        proof {
            use_type_invariant(self);
        }
        self.kind
    }

    /// The resource of the action.
    pub fn resource_id(&self) -> (id: &FullyQualifiedResourceId)
        ensures
            id@ == self@.resource_id,
    {
        &self.resource_id
    }

    /// The target of the action.
    pub fn target_path(&self) -> (path: &ResolvedPath)
        ensures
            path@ == self@.target_path,
    {
        &self.target_path
    }

    /// What held before the action.
    pub fn precondition(&self) -> (condition: &TargetCondition)
        ensures
            condition@ == self@.precondition,
    {
        &self.precondition
    }

    /// What is to hold after the action.
    pub fn postcondition(&self) -> (condition: &TargetCondition)
        ensures
            condition@ == self@.postcondition,
    {
        &self.postcondition
    }

    /// How far the action has come.
    pub fn status(&self) -> (status: ActionStatus)
        ensures
            status == self@.status,
    {
        self.status
    }

    /// The temporary that the action was to work through.
    pub fn temporary_path(&self) -> (path: Option<&ResolvedPath>)
        ensures
            match path {
                Some(path) => self@.temporary_path == Some(path@),
                None => self@.temporary_path is None,
            },
    {
        match &self.temporary_path {
            Some(path) => Some(path),
            None => None,
        }
    }

    /// The facts beside the conditions.
    pub fn facts(&self) -> (facts: &RecordedFacts)
        ensures
            facts@ == self@.facts,
    {
        &self.facts
    }

    /// The same record with another status.
    pub fn with_status(self, status: ActionStatus) -> (action: Self)
        ensures
            action@ == (RecordedView { status, ..self@ }),
    {
        proof {
            use_type_invariant(&self);
        }
        RecordedAction {
            kind: self.kind,
            resource_id: self.resource_id,
            target_path: self.target_path,
            precondition: self.precondition,
            postcondition: self.postcondition,
            status,
            temporary_path: self.temporary_path,
            facts: self.facts,
        }
    }
}

/// One entry of an operation record.
#[derive(Debug, PartialEq, Eq)]
pub struct RecordedEntry {
    pub id: ActionId,
    pub action: RecordedAction,
}

/// One entry of an operation record as texts.
pub struct EntryView {
    pub id: Seq<char>,
    pub action: RecordedView,
}

impl View for RecordedEntry {
    type V = EntryView;

    open spec fn view(&self) -> EntryView {
        EntryView { id: self.id@, action: self.action@ }
    }
}

/// The entries of a list as texts, in order.
pub open spec fn entry_views(list: Seq<RecordedEntry>) -> Seq<EntryView> {
    Seq::new(list.len(), |i: int| list[i]@)
}

/// A recorded operation: its identity and its actions in order.
#[derive(Debug, PartialEq, Eq)]
pub struct OperationRecord {
    pub id: OperationId,
    pub actions: Vec<RecordedEntry>,
}

/// Whether every action lets the operation be closed.
pub open spec fn closable(entries: Seq<EntryView>) -> bool {
    forall|i: int| 0 <= i < entries.len() ==> (#[trigger] entries[i]).action.status.closes()
}

/// Whether every action of a list lets its operation be closed.
pub fn can_close(entries: &Vec<RecordedEntry>) -> (closes: bool)
    ensures
        closes == closable(entry_views(entries@)),
{
    let mut i: usize = 0;
    while i < entries.len()
        invariant
            i <= entries@.len(),
            forall|k: int|
                0 <= k < i ==> (#[trigger] entry_views(entries@)[k]).action.status.closes(),
        decreases entries.len() - i,
    {
        if !entries[i].action.status().closes_operation() {
            assert(!entry_views(entries@)[i as int].action.status.closes());
            return false;
        }
        i += 1;
    }
    true
}

/// An action is finished exactly if it is neither pending, nor running, nor uncertain.
pub proof fn action_is_finished_once_nothing_is_open(status: ActionStatus, closes: bool)
    requires
        call_ensures(ActionStatus::closes_operation, (&status,), closes),
    ensures
        closes <==> status !is Pending && status !is Running && status !is Uncertain,
{
}

/// An operation may be closed exactly if no action is pending, running or uncertain.
pub proof fn operation_is_closed_once_every_action_is_finished(
    entries: Vec<RecordedEntry>,
    closes: bool,
)
    requires
        call_ensures(can_close, (&entries,), closes),
    ensures
        closes <==> forall|i: int|
            0 <= i < entries@.len() ==> (#[trigger] entries@[i])@.action.status !is Pending
                && entries@[i]@.action.status !is Running && entries@[i]@.action.status
                !is Uncertain,
{
    let views = entry_views(entries@);
    if closes {
        assert forall|i: int| 0 <= i < entries@.len() implies (
        #[trigger] entries@[i])@.action.status !is Pending && entries@[i]@.action.status
            !is Running && entries@[i]@.action.status !is Uncertain by {
            assert(views[i].action.status.closes());
        }
    } else {
        let i = choose|i: int| 0 <= i < views.len() && !(#[trigger] views[i]).action.status.closes();
        assert(views[i] == entries@[i]@);
    }
}

/// A record is read exactly if a relocation comes with its facts, and then every part of it reads back as
/// it was given.
pub proof fn persisted_record_reads_back(
    kind: ActionKind,
    resource_id: FullyQualifiedResourceId,
    target_path: ResolvedPath,
    precondition: TargetCondition,
    postcondition: TargetCondition,
    status: ActionStatus,
    temporary_path: Option<ResolvedPath>,
    facts: RecordedFacts,
    outcome: Result<RecordedAction, RecordedActionError>,
)
    requires
        call_ensures(
            RecordedAction::from_persisted,
            (
                kind,
                resource_id,
                target_path,
                precondition,
                postcondition,
                status,
                temporary_path,
                facts,
            ),
            outcome,
        ),
    ensures
        outcome is Err <==> (kind is RelocateLink && !(facts@ is Relocation)) || (kind
            is RelocateCopy && !(facts@ is Copy)),
        (outcome matches Ok(action) ==> (forall|read: ActionKind|
            #[trigger] call_ensures(RecordedAction::kind, (&action,), read) ==> read == kind)),
        (outcome matches Ok(action) ==> (forall|read: &FullyQualifiedResourceId|
            #[trigger] call_ensures(RecordedAction::resource_id, (&action,), read) ==> read@
                == resource_id@)),
        (outcome matches Ok(action) ==> (forall|read: &ResolvedPath|
            #[trigger] call_ensures(RecordedAction::target_path, (&action,), read) ==> read@
                == target_path@)),
        (outcome matches Ok(action) ==> (forall|read: &TargetCondition|
            #[trigger] call_ensures(RecordedAction::precondition, (&action,), read) ==> read@
                == precondition@)),
        (outcome matches Ok(action) ==> (forall|read: &TargetCondition|
            #[trigger] call_ensures(RecordedAction::postcondition, (&action,), read) ==> read@
                == postcondition@)),
        (outcome matches Ok(action) ==> (forall|read: ActionStatus|
            #[trigger] call_ensures(RecordedAction::status, (&action,), read) ==> read == status)),
        (outcome matches Ok(action) ==> (forall|read: &RecordedFacts|
            #[trigger] call_ensures(RecordedAction::facts, (&action,), read) ==> read@ == facts@)),
        (outcome matches Ok(action) ==> (forall|read: Option<&ResolvedPath>|
            #[trigger] call_ensures(RecordedAction::temporary_path, (&action,), read) ==> match read {
                Some(path) => temporary_path is Some && path@ == temporary_path->0@,
                None => temporary_path is None,
            })),
{
}

/// Another status changes nothing else of a record, and the last one given stays.
pub proof fn another_status_changes_nothing_else(
    action: RecordedAction,
    first: ActionStatus,
    last: ActionStatus,
    between: RecordedAction,
    after: RecordedAction,
)
    requires
        call_ensures(RecordedAction::with_status, (action, first), between),
        call_ensures(RecordedAction::with_status, (between, last), after),
    ensures
        between@.status == first,
        after@.status == last,
        after@.kind == action@.kind,
        after@.resource_id == action@.resource_id,
        after@.target_path == action@.target_path,
        after@.precondition == action@.precondition,
        after@.postcondition == action@.postcondition,
        after@.temporary_path == action@.temporary_path,
        after@.facts == action@.facts,
        last == action@.status ==> after@ == action@,
{
}

} // verus!
