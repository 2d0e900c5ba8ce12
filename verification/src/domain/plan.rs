//! Action plans: what each action expects, what it leaves, and what it lets be recorded.

use vstd::prelude::*;
use vstd::string::*;
use crate::domain::desired::ResolvedResource;
use crate::domain::diagnostic::Diagnostic;
use crate::domain::effects::{same_effect, same_link, EffectView, LinkView};
use crate::domain::file_copy::{ContentFingerprint, ResolvedFileCopy};
use crate::domain::file_link::{LinkTarget, ResolvedFileLink};
use crate::domain::ids::FullyQualifiedResourceId;
use crate::domain::known::{KnownFileCopy, KnownFileLink, KnownResource};
use crate::domain::paths::{same_path, ResolvedPath};
use crate::text::{closes, copy_of, opens};

verus! {

/// What an action does.
#[derive(Clone, Copy, Debug, PartialEq, Eq, Structural)]
pub enum ActionKind {
    CreateLink,
    ReplaceLink,
    RelocateLink,
    ReplaceOwnership,
    RemoveLink,
    ForgetMissing,
    CreateCopy,
    ReplaceCopy,
    RelocateCopy,
    RemoveCopy,
    ReplaceEffect,
    Noop,
}

/// Why an action was selected.
#[derive(Clone, Copy, Debug, PartialEq, Eq, Structural)]
pub enum ActionReason {
    TargetMissing,
    SourceChanged,
    TargetChanged,
    ManagedIdentityHandoff,
    StaleResource,
    StaleResourceTargetMissing,
    AlreadySatisfied,
}

/// A predicate on what stands at a target.
pub enum ConditionView {
    Missing { target_path: Seq<char> },
    ExpectedLink { target_path: Seq<char>, link_target: Seq<char> },
    ExpectedCopy { target_path: Seq<char>, content_fingerprint: Seq<char> },
}

impl ConditionView {
    /// The target that the predicate is about.
    pub open spec fn target_path(self) -> Seq<char> {
        match self {
            ConditionView::Missing { target_path } => target_path,
            ConditionView::ExpectedLink { target_path, .. } => target_path,
            ConditionView::ExpectedCopy { target_path, .. } => target_path,
        }
    }
}

/// Whether two predicates are the same.
pub open spec fn same_condition(left: ConditionView, right: ConditionView) -> bool {
    match (left, right) {
        (
            ConditionView::Missing { target_path },
            ConditionView::Missing { target_path: path },
        ) => same_path(target_path, path),
        (
            ConditionView::ExpectedLink { target_path, link_target },
            ConditionView::ExpectedLink { target_path: path, link_target: link },
        ) => same_path(target_path, path) && same_path(link_target, link),
        (
            ConditionView::ExpectedCopy { target_path, content_fingerprint },
            ConditionView::ExpectedCopy { target_path: path, content_fingerprint: content },
        ) => same_path(target_path, path) && content_fingerprint == content,
        _ => false,
    }
}

/// Whether two lists of predicates are the same.
pub open spec fn conditions_agree(left: Seq<ConditionView>, right: Seq<ConditionView>) -> bool {
    &&& left.len() == right.len()
    &&& forall|i: int| 0 <= i < left.len() ==> same_condition(#[trigger] left[i], right[i])
}

/// The predicate that an effect stands at its target.
pub open spec fn stands(effect: EffectView) -> ConditionView {
    match effect {
        EffectView::Link(link) => ConditionView::ExpectedLink {
            target_path: link.target_path,
            link_target: link.link_target,
        },
        EffectView::Copy(copy) => ConditionView::ExpectedCopy {
            target_path: copy.target_path,
            content_fingerprint: copy.content_fingerprint,
        },
    }
}

/// The predicate that nothing stands at the target of an effect.
pub open spec fn absent(effect: EffectView) -> ConditionView {
    ConditionView::Missing { target_path: effect.target_path() }
}

/// A transition of the recorded facts.
pub enum UpdateView {
    Upsert { resource: EffectView },
    Remove { resource_id: Seq<char> },
    ReplaceIdentity { old_resource_id: Seq<char>, new_resource: EffectView },
}

/// An action on one effect, wanted, recorded or both.
pub enum ActionView {
    Create { desired: EffectView },
    Replace { desired: EffectView, previous: EffectView },
    Relocate { desired: EffectView, previous: EffectView },
    ReplaceOwnership { desired: EffectView, previous: EffectView },
    Remove { previous: EffectView },
    ForgetMissing { previous: EffectView },
    Noop { desired: EffectView, previous: EffectView },
    ReplaceEffect { desired: EffectView, previous: EffectView },
}

impl ActionView {
    /// What the action wants to stand at the end.
    pub open spec fn desired(self) -> Option<EffectView> {
        match self {
            ActionView::Create { desired } => Some(desired),
            ActionView::Replace { desired, .. } => Some(desired),
            ActionView::Relocate { desired, .. } => Some(desired),
            ActionView::ReplaceOwnership { desired, .. } => Some(desired),
            ActionView::Remove { .. } => None,
            ActionView::ForgetMissing { .. } => None,
            ActionView::Noop { desired, .. } => Some(desired),
            ActionView::ReplaceEffect { desired, .. } => Some(desired),
        }
    }

    /// The recorded effect that the action starts from.
    pub open spec fn previous(self) -> Option<EffectView> {
        match self {
            ActionView::Create { .. } => None,
            ActionView::Replace { previous, .. } => Some(previous),
            ActionView::Relocate { previous, .. } => Some(previous),
            ActionView::ReplaceOwnership { previous, .. } => Some(previous),
            ActionView::Remove { previous } => Some(previous),
            ActionView::ForgetMissing { previous } => Some(previous),
            ActionView::Noop { previous, .. } => Some(previous),
            ActionView::ReplaceEffect { previous, .. } => Some(previous),
        }
    }

    /// Whether the action is on a link alone.
    pub open spec fn is_link(self) -> bool {
        &&& self !is ReplaceEffect
        &&& (self.desired() is Some ==> self.desired()->0 is Link)
        &&& (self.previous() is Some ==> self.previous()->0 is Link)
    }

    /// Whether the action is on a copy alone.
    pub open spec fn is_copy(self) -> bool {
        &&& self !is ReplaceEffect
        &&& self !is ReplaceOwnership
        &&& (self.desired() is Some ==> self.desired()->0 is Copy)
        &&& (self.previous() is Some ==> self.previous()->0 is Copy)
    }

    /// What the action does.
    pub open spec fn kind(self) -> ActionKind {
        match self {
            ActionView::Create { desired } => if desired is Link {
                ActionKind::CreateLink
            } else {
                ActionKind::CreateCopy
            },
            ActionView::Replace { desired, .. } => if desired is Link {
                ActionKind::ReplaceLink
            } else {
                ActionKind::ReplaceCopy
            },
            ActionView::Relocate { desired, .. } => if desired is Link {
                ActionKind::RelocateLink
            } else {
                ActionKind::RelocateCopy
            },
            ActionView::ReplaceOwnership { .. } => ActionKind::ReplaceOwnership,
            ActionView::Remove { previous } => if previous is Link {
                ActionKind::RemoveLink
            } else {
                ActionKind::RemoveCopy
            },
            ActionView::ForgetMissing { .. } => ActionKind::ForgetMissing,
            ActionView::Noop { .. } => ActionKind::Noop,
            ActionView::ReplaceEffect { .. } => ActionKind::ReplaceEffect,
        }
    }

    /// Why the action is selected.
    pub open spec fn reason(self) -> ActionReason {
        match self {
            ActionView::Create { .. } => ActionReason::TargetMissing,
            ActionView::Replace { .. } => ActionReason::SourceChanged,
            ActionView::Relocate { .. } => ActionReason::TargetChanged,
            ActionView::ReplaceOwnership { .. } => ActionReason::ManagedIdentityHandoff,
            ActionView::Remove { .. } => ActionReason::StaleResource,
            ActionView::ForgetMissing { .. } => ActionReason::StaleResourceTargetMissing,
            ActionView::Noop { .. } => ActionReason::AlreadySatisfied,
            ActionView::ReplaceEffect { .. } => ActionReason::SourceChanged,
        }
    }

    /// The resource that gives the action its place: the wanted one, or else the recorded one.
    pub open spec fn resource_id(self) -> Seq<char> {
        match self.desired() {
            Some(desired) => desired.resource_id(),
            None => self.previous()->0.resource_id(),
        }
    }

    /// The resource whose ownership passes to another.
    pub open spec fn replaced_resource_id(self) -> Option<Seq<char>> {
        match self {
            ActionView::ReplaceOwnership { previous, .. } => Some(previous.resource_id()),
            _ => None,
        }
    }

    /// What must hold immediately before the action.
    pub open spec fn preconditions(self) -> Seq<ConditionView> {
        match self {
            ActionView::Create { desired } => seq![absent(desired)],
            ActionView::Relocate { desired, previous } => seq![stands(previous), absent(desired)],
            ActionView::ForgetMissing { previous } => seq![absent(previous)],
            _ => seq![stands(self.previous()->0)],
        }
    }

    /// What must hold before the recorded facts may change.
    pub open spec fn postconditions(self) -> Seq<ConditionView> {
        match self {
            ActionView::Relocate { desired, previous } => seq![absent(previous), stands(desired)],
            ActionView::Remove { previous } => seq![absent(previous)],
            ActionView::ForgetMissing { previous } => seq![absent(previous)],
            _ => seq![stands(self.desired()->0)],
        }
    }

    /// The transition of the recorded facts that the postcondition makes eligible.
    pub open spec fn update(self) -> Option<UpdateView> {
        match self {
            ActionView::ReplaceOwnership { desired, previous } => Some(
                UpdateView::ReplaceIdentity {
                    old_resource_id: previous.resource_id(),
                    new_resource: desired,
                },
            ),
            ActionView::Remove { previous } => Some(
                UpdateView::Remove { resource_id: previous.resource_id() },
            ),
            ActionView::ForgetMissing { previous } => Some(
                UpdateView::Remove { resource_id: previous.resource_id() },
            ),
            ActionView::Noop { .. } => None,
            _ => Some(UpdateView::Upsert { resource: self.desired()->0 }),
        }
    }

    /// The targets that the action touches.
    pub open spec fn touched(self) -> Seq<Seq<char>> {
        match self {
            ActionView::Relocate { desired, previous } => seq![
                previous.target_path(),
                desired.target_path(),
            ],
            _ => match self.desired() {
                Some(desired) => seq![desired.target_path()],
                None => seq![self.previous()->0.target_path()],
            },
        }
    }
}

/// One resolved target predicate required before or after an action.
#[derive(Debug, PartialEq, Eq)]
pub enum TargetCondition {
    Missing { target_path: ResolvedPath },
    ExpectedLink { target_path: ResolvedPath, link_target: LinkTarget },
    ExpectedCopy { target_path: ResolvedPath, content_fingerprint: ContentFingerprint },
}

impl View for TargetCondition {
    type V = ConditionView;

    open spec fn view(&self) -> ConditionView {
        match self {
            TargetCondition::Missing { target_path } => ConditionView::Missing {
                target_path: target_path@,
            },
            TargetCondition::ExpectedLink { target_path, link_target } =>
                ConditionView::ExpectedLink {
                target_path: target_path@,
                link_target: link_target@,
            },
            TargetCondition::ExpectedCopy { target_path, content_fingerprint } =>
                ConditionView::ExpectedCopy {
                target_path: target_path@,
                content_fingerprint: content_fingerprint@,
            },
        }
    }
}

impl Clone for TargetCondition {
    fn clone(&self) -> (copy: Self)
        ensures
            copy@ == self@,
    {
        match self {
            TargetCondition::Missing { target_path } => TargetCondition::Missing {
                target_path: target_path.clone(),
            },
            TargetCondition::ExpectedLink { target_path, link_target } =>
                TargetCondition::ExpectedLink {
                target_path: target_path.clone(),
                link_target: link_target.clone(),
            },
            TargetCondition::ExpectedCopy { target_path, content_fingerprint } =>
                TargetCondition::ExpectedCopy {
                target_path: target_path.clone(),
                content_fingerprint: content_fingerprint.clone(),
            },
        }
    }
}

impl TargetCondition {
    /// The target path governed by this condition.
    pub fn target_path(&self) -> (path: &ResolvedPath)
        ensures
            path@ == self@.target_path(),
    {
        match self {
            TargetCondition::Missing { target_path } => target_path,
            TargetCondition::ExpectedLink { target_path, .. } => target_path,
            TargetCondition::ExpectedCopy { target_path, .. } => target_path,
        }
    }

    /// Whether two conditions are the same.
    pub fn same(&self, other: &Self) -> (equal: bool)
        ensures
            equal == same_condition(self@, other@),
    {
        match (self, other) {
            (
                TargetCondition::Missing { target_path },
                TargetCondition::Missing { target_path: path },
            ) => target_path.same(path),
            (
                TargetCondition::ExpectedLink { target_path, link_target },
                TargetCondition::ExpectedLink { target_path: path, link_target: link },
            ) => target_path.same(path) && link_target.same(link),
            (
                TargetCondition::ExpectedCopy { target_path, content_fingerprint },
                TargetCondition::ExpectedCopy { target_path: path, content_fingerprint: content },
            ) => target_path.same(path) && content_fingerprint.same(content),
            _ => false,
        }
    }
}

/// The predicates of a list of conditions, in order.
pub open spec fn condition_views(list: Seq<TargetCondition>) -> Seq<ConditionView> {
    Seq::new(list.len(), |i: int| list[i]@)
}

/// The texts of a list of paths, in order.
pub open spec fn path_views(list: Seq<&ResolvedPath>) -> Seq<Seq<char>> {
    Seq::new(list.len(), |i: int| list[i]@)
}

/// The transition that a link or copy action makes eligible.
#[derive(Debug, PartialEq, Eq)]
pub enum KnownStateUpdate {
    Upsert { resource: KnownFileLink },
    UpsertCopy { resource: KnownFileCopy },
    Remove { resource_id: FullyQualifiedResourceId },
    ReplaceIdentity { old_resource_id: FullyQualifiedResourceId, new_resource: KnownFileLink },
}

impl View for KnownStateUpdate {
    type V = UpdateView;

    open spec fn view(&self) -> UpdateView {
        match self {
            KnownStateUpdate::Upsert { resource } => UpdateView::Upsert {
                resource: EffectView::Link(resource@),
            },
            KnownStateUpdate::UpsertCopy { resource } => UpdateView::Upsert {
                resource: EffectView::Copy(resource@),
            },
            KnownStateUpdate::Remove { resource_id } => UpdateView::Remove {
                resource_id: resource_id@,
            },
            KnownStateUpdate::ReplaceIdentity { old_resource_id, new_resource } =>
                UpdateView::ReplaceIdentity {
                old_resource_id: old_resource_id@,
                new_resource: EffectView::Link(new_resource@),
            },
        }
    }
}

/// The transition that any resource action makes eligible.
#[derive(Debug, PartialEq, Eq)]
pub enum ResourceKnownStateUpdate {
    Upsert { resource: KnownResource },
    Remove { resource_id: FullyQualifiedResourceId },
    ReplaceIdentity { old_resource_id: FullyQualifiedResourceId, new_resource: KnownResource },
}

impl View for ResourceKnownStateUpdate {
    type V = UpdateView;

    open spec fn view(&self) -> UpdateView {
        match self {
            ResourceKnownStateUpdate::Upsert { resource } => UpdateView::Upsert {
                resource: resource@,
            },
            ResourceKnownStateUpdate::Remove { resource_id } => UpdateView::Remove {
                resource_id: resource_id@,
            },
            ResourceKnownStateUpdate::ReplaceIdentity { old_resource_id, new_resource } =>
                UpdateView::ReplaceIdentity {
                old_resource_id: old_resource_id@,
                new_resource: new_resource@,
            },
        }
    }
}

impl ResourceKnownStateUpdate {
    /// The same transition, told of any resource.
    pub fn from_update(update: KnownStateUpdate) -> (widened: Self)
        ensures
            widened@ == update@,
    {
        match update {
            KnownStateUpdate::Upsert { resource } => ResourceKnownStateUpdate::Upsert {
                resource: KnownResource::FileLink(resource),
            },
            KnownStateUpdate::UpsertCopy { resource } => ResourceKnownStateUpdate::Upsert {
                resource: KnownResource::FileCopy(resource),
            },
            KnownStateUpdate::Remove { resource_id } => ResourceKnownStateUpdate::Remove {
                resource_id,
            },
            KnownStateUpdate::ReplaceIdentity { old_resource_id, new_resource } =>
                ResourceKnownStateUpdate::ReplaceIdentity {
                old_resource_id,
                new_resource: KnownResource::FileLink(new_resource),
            },
        }
    }
}

fn missing(target_path: &ResolvedPath) -> (condition: TargetCondition)
    ensures
        condition@ == (ConditionView::Missing { target_path: target_path@ }),
{
    TargetCondition::Missing { target_path: target_path.clone() }
}

fn expected(known: &KnownFileLink) -> (condition: TargetCondition)
    ensures
        condition@ == stands(EffectView::Link(known@)),
{
    TargetCondition::ExpectedLink {
        target_path: known.target_path().clone(),
        link_target: known.link_target().clone(),
    }
}

fn expected_desired(desired: &ResolvedFileLink) -> (condition: TargetCondition)
    ensures
        condition@ == stands(EffectView::Link(desired@)),
{
    TargetCondition::ExpectedLink {
        target_path: desired.target_path().clone(),
        link_target: desired.link_target().clone(),
    }
}

fn expected_copy(known: &KnownFileCopy) -> (condition: TargetCondition)
    ensures
        condition@ == stands(EffectView::Copy(known@)),
{
    TargetCondition::ExpectedCopy {
        target_path: known.target_path().clone(),
        content_fingerprint: known.content_fingerprint().clone(),
    }
}

fn expected_desired_copy(desired: &ResolvedFileCopy) -> (condition: TargetCondition)
    ensures
        condition@ == stands(EffectView::Copy(desired@)),
{
    TargetCondition::ExpectedCopy {
        target_path: desired.target_path().clone(),
        content_fingerprint: desired.source_content_fingerprint().clone(),
    }
}

fn condition_for_known_effect(effect: &KnownResource) -> (condition: TargetCondition)
    ensures
        condition@ == stands(effect@),
{
    match effect {
        KnownResource::FileLink(link) => expected(link),
        KnownResource::FileCopy(copy) => expected_copy(copy),
    }
}

fn condition_for_resolved_effect(effect: &ResolvedResource) -> (condition: TargetCondition)
    ensures
        condition@ == stands(effect@),
{
    match effect {
        ResolvedResource::FileLink(link) => expected_desired(link),
        ResolvedResource::FileCopy(copy) => expected_desired_copy(copy),
    }
}

fn known_from_resolved_effect(effect: &ResolvedResource) -> (known: KnownResource)
    ensures
        known@ == effect@,
{
    match effect {
        ResolvedResource::FileLink(link) => KnownResource::FileLink(
            KnownFileLink::from_resolved(link),
        ),
        ResolvedResource::FileCopy(copy) => KnownResource::FileCopy(
            KnownFileCopy::from_resolved(copy),
        ),
    }
}

fn one_condition(condition: TargetCondition) -> (list: Vec<TargetCondition>)
    ensures
        condition_views(list@) == seq![condition@],
{
    let mut list: Vec<TargetCondition> = Vec::new();
    list.push(condition);
    assert(condition_views(list@) =~= seq![condition@]);
    list
}

fn two_conditions(first: TargetCondition, second: TargetCondition) -> (list: Vec<TargetCondition>)
    ensures
        condition_views(list@) == seq![first@, second@],
{
    let mut list: Vec<TargetCondition> = Vec::new();
    list.push(first);
    list.push(second);
    assert(condition_views(list@) =~= seq![first@, second@]);
    list
}

fn one_path<'a>(path: &'a ResolvedPath) -> (list: Vec<&'a ResolvedPath>)
    ensures
        path_views(list@) == seq![path@],
{
    let mut list: Vec<&'a ResolvedPath> = Vec::new();
    list.push(path);
    assert(path_views(list@) =~= seq![path@]);
    list
}

fn two_paths<'a>(first: &'a ResolvedPath, second: &'a ResolvedPath) -> (list: Vec<&'a ResolvedPath>)
    ensures
        path_views(list@) == seq![first@, second@],
{
    let mut list: Vec<&'a ResolvedPath> = Vec::new();
    list.push(first);
    list.push(second);
    assert(path_views(list@) =~= seq![first@, second@]);
    list
}

/// A planned action on a file copy.
#[derive(Debug, PartialEq, Eq)]
pub enum PlannedFileCopyAction {
    Create { desired: ResolvedFileCopy },
    Replace { desired: ResolvedFileCopy, previous: KnownFileCopy },
    Relocate { desired: ResolvedFileCopy, previous: KnownFileCopy },
    Remove { previous: KnownFileCopy },
    ForgetMissing { previous: KnownFileCopy },
    Noop { desired: ResolvedFileCopy, previous: KnownFileCopy },
}

impl View for PlannedFileCopyAction {
    type V = ActionView;

    open spec fn view(&self) -> ActionView {
        match self {
            PlannedFileCopyAction::Create { desired } => ActionView::Create {
                desired: EffectView::Copy(desired@),
            },
            PlannedFileCopyAction::Replace { desired, previous } => ActionView::Replace {
                desired: EffectView::Copy(desired@),
                previous: EffectView::Copy(previous@),
            },
            PlannedFileCopyAction::Relocate { desired, previous } => ActionView::Relocate {
                desired: EffectView::Copy(desired@),
                previous: EffectView::Copy(previous@),
            },
            PlannedFileCopyAction::Remove { previous } => ActionView::Remove {
                previous: EffectView::Copy(previous@),
            },
            PlannedFileCopyAction::ForgetMissing { previous } => ActionView::ForgetMissing {
                previous: EffectView::Copy(previous@),
            },
            PlannedFileCopyAction::Noop { desired, previous } => ActionView::Noop {
                desired: EffectView::Copy(desired@),
                previous: EffectView::Copy(previous@),
            },
        }
    }
}

impl Clone for PlannedFileCopyAction {
    fn clone(&self) -> (copy: Self)
        ensures
            copy@ == self@,
    {
        match self {
            PlannedFileCopyAction::Create { desired } => PlannedFileCopyAction::Create {
                desired: desired.clone(),
            },
            PlannedFileCopyAction::Replace { desired, previous } => PlannedFileCopyAction::Replace {
                desired: desired.clone(),
                previous: previous.clone(),
            },
            PlannedFileCopyAction::Relocate { desired, previous } =>
                PlannedFileCopyAction::Relocate {
                desired: desired.clone(),
                previous: previous.clone(),
            },
            PlannedFileCopyAction::Remove { previous } => PlannedFileCopyAction::Remove {
                previous: previous.clone(),
            },
            PlannedFileCopyAction::ForgetMissing { previous } =>
                PlannedFileCopyAction::ForgetMissing { previous: previous.clone() },
            PlannedFileCopyAction::Noop { desired, previous } => PlannedFileCopyAction::Noop {
                desired: desired.clone(),
                previous: previous.clone(),
            },
        }
    }
}

impl PlannedFileCopyAction {
    /// What the action does.
    pub fn kind(&self) -> (kind: ActionKind)
        ensures
            kind == self@.kind(),
    {
        match self {
            PlannedFileCopyAction::Create { .. } => ActionKind::CreateCopy,
            PlannedFileCopyAction::Replace { .. } => ActionKind::ReplaceCopy,
            PlannedFileCopyAction::Relocate { .. } => ActionKind::RelocateCopy,
            PlannedFileCopyAction::Remove { .. } => ActionKind::RemoveCopy,
            PlannedFileCopyAction::ForgetMissing { .. } => ActionKind::ForgetMissing,
            PlannedFileCopyAction::Noop { .. } => ActionKind::Noop,
        }
    }

    /// Why the action is selected.
    pub fn reason(&self) -> (reason: ActionReason)
        ensures
            reason == self@.reason(),
    {
        match self {
            PlannedFileCopyAction::Create { .. } => ActionReason::TargetMissing,
            PlannedFileCopyAction::Replace { .. } => ActionReason::SourceChanged,
            PlannedFileCopyAction::Relocate { .. } => ActionReason::TargetChanged,
            PlannedFileCopyAction::Remove { .. } => ActionReason::StaleResource,
            PlannedFileCopyAction::ForgetMissing { .. } => ActionReason::StaleResourceTargetMissing,
            PlannedFileCopyAction::Noop { .. } => ActionReason::AlreadySatisfied,
        }
    }

    /// The resource that gives the action its place.
    pub fn resource_id(&self) -> (id: &FullyQualifiedResourceId)
        ensures
            id@ == self@.resource_id(),
    {
        match self {
            PlannedFileCopyAction::Create { desired } => desired.resource_id(),
            PlannedFileCopyAction::Replace { desired, .. } => desired.resource_id(),
            PlannedFileCopyAction::Relocate { desired, .. } => desired.resource_id(),
            PlannedFileCopyAction::Noop { desired, .. } => desired.resource_id(),
            PlannedFileCopyAction::Remove { previous } => previous.resource_id(),
            PlannedFileCopyAction::ForgetMissing { previous } => previous.resource_id(),
        }
    }

    /// The definition of the copy that stands at the end.
    pub fn desired(&self) -> (desired: Option<&ResolvedFileCopy>)
        ensures
            match desired {
                Some(copy) => self@.desired() == Some(EffectView::Copy(copy@)),
                None => self@.desired() is None,
            },
    {
        match self {
            PlannedFileCopyAction::Create { desired } => Some(desired),
            PlannedFileCopyAction::Replace { desired, .. } => Some(desired),
            PlannedFileCopyAction::Relocate { desired, .. } => Some(desired),
            PlannedFileCopyAction::Noop { desired, .. } => Some(desired),
            PlannedFileCopyAction::Remove { .. } => None,
            PlannedFileCopyAction::ForgetMissing { .. } => None,
        }
    }

    /// The recorded copy that the action starts from.
    pub fn previous(&self) -> (previous: Option<&KnownFileCopy>)
        ensures
            match previous {
                Some(copy) => self@.previous() == Some(EffectView::Copy(copy@)),
                None => self@.previous() is None,
            },
    {
        match self {
            PlannedFileCopyAction::Replace { previous, .. } => Some(previous),
            PlannedFileCopyAction::Relocate { previous, .. } => Some(previous),
            PlannedFileCopyAction::Remove { previous } => Some(previous),
            PlannedFileCopyAction::ForgetMissing { previous } => Some(previous),
            PlannedFileCopyAction::Noop { previous, .. } => Some(previous),
            PlannedFileCopyAction::Create { .. } => None,
        }
    }

    /// What the executor must recheck before mutation.
    pub fn preconditions(&self) -> (conditions: Vec<TargetCondition>)
        ensures
            condition_views(conditions@) == self@.preconditions(),
    {
        match self {
            PlannedFileCopyAction::Create { desired } => one_condition(
                missing(desired.target_path()),
            ),
            PlannedFileCopyAction::Replace { previous, .. } => one_condition(
                expected_copy(previous),
            ),
            PlannedFileCopyAction::Remove { previous } => one_condition(expected_copy(previous)),
            PlannedFileCopyAction::Relocate { desired, previous } => two_conditions(
                expected_copy(previous),
                missing(desired.target_path()),
            ),
            PlannedFileCopyAction::ForgetMissing { previous } => one_condition(
                missing(previous.target_path()),
            ),
            PlannedFileCopyAction::Noop { previous, .. } => one_condition(expected_copy(previous)),
        }
    }

    /// What must hold before the recorded facts can change.
    pub fn postconditions(&self) -> (conditions: Vec<TargetCondition>)
        ensures
            condition_views(conditions@) == self@.postconditions(),
    {
        match self {
            PlannedFileCopyAction::Create { desired } => one_condition(
                expected_desired_copy(desired),
            ),
            PlannedFileCopyAction::Replace { desired, .. } => one_condition(
                expected_desired_copy(desired),
            ),
            PlannedFileCopyAction::Noop { desired, .. } => one_condition(
                expected_desired_copy(desired),
            ),
            PlannedFileCopyAction::Relocate { desired, previous } => two_conditions(
                missing(previous.target_path()),
                expected_desired_copy(desired),
            ),
            PlannedFileCopyAction::Remove { previous } => one_condition(
                missing(previous.target_path()),
            ),
            PlannedFileCopyAction::ForgetMissing { previous } => one_condition(
                missing(previous.target_path()),
            ),
        }
    }

    /// The transition that the postcondition makes eligible.
    pub fn known_state_update(&self) -> (update: Option<KnownStateUpdate>)
        ensures
            update_view(update) == self@.update(),
    {
        match self {
            PlannedFileCopyAction::Create { desired } => Some(
                KnownStateUpdate::UpsertCopy { resource: KnownFileCopy::from_resolved(desired) },
            ),
            PlannedFileCopyAction::Replace { desired, .. } => Some(
                KnownStateUpdate::UpsertCopy { resource: KnownFileCopy::from_resolved(desired) },
            ),
            PlannedFileCopyAction::Relocate { desired, .. } => Some(
                KnownStateUpdate::UpsertCopy { resource: KnownFileCopy::from_resolved(desired) },
            ),
            PlannedFileCopyAction::Remove { previous } => Some(
                KnownStateUpdate::Remove { resource_id: previous.resource_id().clone() },
            ),
            PlannedFileCopyAction::ForgetMissing { previous } => Some(
                KnownStateUpdate::Remove { resource_id: previous.resource_id().clone() },
            ),
            PlannedFileCopyAction::Noop { .. } => None,
        }
    }

    /// The targets that the action touches.
    pub fn touched_targets(&self) -> (targets: Vec<&ResolvedPath>)
        ensures
            path_views(targets@) == self@.touched(),
    {
        match self {
            PlannedFileCopyAction::Create { desired } => one_path(desired.target_path()),
            PlannedFileCopyAction::Replace { desired, .. } => one_path(desired.target_path()),
            PlannedFileCopyAction::Noop { desired, .. } => one_path(desired.target_path()),
            PlannedFileCopyAction::Relocate { desired, previous } => two_paths(
                previous.target_path(),
                desired.target_path(),
            ),
            PlannedFileCopyAction::Remove { previous } => one_path(previous.target_path()),
            PlannedFileCopyAction::ForgetMissing { previous } => one_path(previous.target_path()),
        }
    }
}

/// The transition inside an optional update.
pub open spec fn update_view(update: Option<KnownStateUpdate>) -> Option<UpdateView> {
    match update {
        Some(update) => Some(update@),
        None => None,
    }
}

/// The transition inside an optional update of any resource.
pub open spec fn resource_update_view(update: Option<ResourceKnownStateUpdate>) -> Option<
    UpdateView,
> {
    match update {
        Some(update) => Some(update@),
        None => None,
    }
}

/// The reason a payload cannot represent its transition.
#[derive(Clone, Copy, Debug, PartialEq, Eq, Structural)]
pub enum PlannedActionError {
    ResourceIdMismatch,
    ResourceIdsEqual,
    TargetPathMismatch,
    TargetPathUnchanged,
    LinkTargetUnchanged,
    DefinitionChanged,
}

impl PlannedActionError {
    /// What the error says.
    pub open spec fn message(self) -> Seq<char> {
        match self {
            PlannedActionError::ResourceIdMismatch =>
                "this action requires Desired and Known records with the same resource ID"@,
            PlannedActionError::ResourceIdsEqual =>
                "replace ownership requires distinct old and new resource identities"@,
            PlannedActionError::TargetPathMismatch =>
                "this action requires Desired and Known records with the same target path"@,
            PlannedActionError::TargetPathUnchanged =>
                "relocate link requires different old and new target paths"@,
            PlannedActionError::LinkTargetUnchanged =>
                "replace link requires a changed resolved link target"@,
            PlannedActionError::DefinitionChanged =>
                "noop requires equal Desired and Known file-link definitions"@,
        }
    }

    /// What the error says.
    pub fn to_text(&self) -> (text: String)
        ensures
            text@ == self.message(),
    {
        match self {
            PlannedActionError::ResourceIdMismatch => copy_of(
                "this action requires Desired and Known records with the same resource ID",
            ),
            PlannedActionError::ResourceIdsEqual => copy_of(
                "replace ownership requires distinct old and new resource identities",
            ),
            PlannedActionError::TargetPathMismatch => copy_of(
                "this action requires Desired and Known records with the same target path",
            ),
            PlannedActionError::TargetPathUnchanged => copy_of(
                "relocate link requires different old and new target paths",
            ),
            PlannedActionError::LinkTargetUnchanged => copy_of(
                "replace link requires a changed resolved link target",
            ),
            PlannedActionError::DefinitionChanged => copy_of(
                "noop requires equal Desired and Known file-link definitions",
            ),
        }
    }
}

/// A planned action on a file link; only validated constructors make one.
#[derive(Debug, PartialEq, Eq)]
pub struct PlannedAction {
    inner: PlannedActionInner,
}

#[derive(Debug, PartialEq, Eq)]
enum PlannedActionInner {
    CreateLink { desired: ResolvedFileLink },
    ReplaceLink { desired: ResolvedFileLink, previous: KnownFileLink },
    RelocateLink { desired: ResolvedFileLink, previous: KnownFileLink },
    ReplaceOwnership { desired: ResolvedFileLink, previous: KnownFileLink },
    RemoveLink { previous: KnownFileLink },
    ForgetMissing { previous: KnownFileLink },
    Noop { desired: ResolvedFileLink, previous: KnownFileLink },
}

impl View for PlannedAction {
    type V = ActionView;

    closed spec fn view(&self) -> ActionView {
        match self.inner {
            PlannedActionInner::CreateLink { desired } => ActionView::Create {
                desired: EffectView::Link(desired@),
            },
            PlannedActionInner::ReplaceLink { desired, previous } => ActionView::Replace {
                desired: EffectView::Link(desired@),
                previous: EffectView::Link(previous@),
            },
            PlannedActionInner::RelocateLink { desired, previous } => ActionView::Relocate {
                desired: EffectView::Link(desired@),
                previous: EffectView::Link(previous@),
            },
            PlannedActionInner::ReplaceOwnership { desired, previous } =>
                ActionView::ReplaceOwnership {
                desired: EffectView::Link(desired@),
                previous: EffectView::Link(previous@),
            },
            PlannedActionInner::RemoveLink { previous } => ActionView::Remove {
                previous: EffectView::Link(previous@),
            },
            PlannedActionInner::ForgetMissing { previous } => ActionView::ForgetMissing {
                previous: EffectView::Link(previous@),
            },
            PlannedActionInner::Noop { desired, previous } => ActionView::Noop {
                desired: EffectView::Link(desired@),
                previous: EffectView::Link(previous@),
            },
        }
    }
}

/// The first reason why a wanted and a recorded link are not the same resource at one target.
pub open spec fn mismatch(desired: LinkView, previous: LinkView) -> Option<PlannedActionError> {
    if desired.resource_id != previous.resource_id {
        Some(PlannedActionError::ResourceIdMismatch)
    } else if !same_path(desired.target_path, previous.target_path) {
        Some(PlannedActionError::TargetPathMismatch)
    } else {
        None
    }
}

/// Whether the payload of a link action fits its transition.
pub open spec fn fits(action: ActionView) -> bool {
    &&& action.is_link()
    &&& match action {
        ActionView::Replace { desired, previous } => {
            &&& mismatch(desired->Link_0, previous->Link_0) is None
            &&& !same_path(desired->Link_0.link_target, previous->Link_0.link_target)
        },
        ActionView::Relocate { desired, previous } => {
            &&& desired.resource_id() == previous.resource_id()
            &&& desired.target_key() != previous.target_key()
        },
        ActionView::ReplaceOwnership { desired, previous } => {
            &&& desired.resource_id() != previous.resource_id()
            &&& desired.target_key() == previous.target_key()
        },
        ActionView::Noop { desired, previous } => same_effect(desired, previous),
        _ => true,
    }
}

fn require_same_resource_id(desired: &ResolvedFileLink, previous: &KnownFileLink) -> (outcome:
    Result<(), PlannedActionError>)
    ensures
        outcome == if desired@.resource_id == previous@.resource_id {
            Ok(())
        } else {
            Err(PlannedActionError::ResourceIdMismatch)
        },
{
    if desired.resource_id().same(previous.resource_id()) {
        Ok(())
    } else {
        Err(PlannedActionError::ResourceIdMismatch)
    }
}

fn require_same_target(desired: &ResolvedFileLink, previous: &KnownFileLink) -> (outcome: Result<
    (),
    PlannedActionError,
>)
    ensures
        outcome == if same_path(desired@.target_path, previous@.target_path) {
            Ok(())
        } else {
            Err(PlannedActionError::TargetPathMismatch)
        },
{
    if desired.target_path().same(previous.target_path()) {
        Ok(())
    } else {
        Err(PlannedActionError::TargetPathMismatch)
    }
}

impl Clone for PlannedAction {
    fn clone(&self) -> (copy: Self)
        ensures
            copy@ == self@,
    {
        proof {
            use_type_invariant(self);
        }
        PlannedAction {
            inner: match &self.inner {
                PlannedActionInner::CreateLink { desired } => PlannedActionInner::CreateLink {
                    desired: desired.clone(),
                },
                PlannedActionInner::ReplaceLink { desired, previous } =>
                    PlannedActionInner::ReplaceLink {
                    desired: desired.clone(),
                    previous: previous.clone(),
                },
                PlannedActionInner::RelocateLink { desired, previous } =>
                    PlannedActionInner::RelocateLink {
                    desired: desired.clone(),
                    previous: previous.clone(),
                },
                PlannedActionInner::ReplaceOwnership { desired, previous } =>
                    PlannedActionInner::ReplaceOwnership {
                    desired: desired.clone(),
                    previous: previous.clone(),
                },
                PlannedActionInner::RemoveLink { previous } => PlannedActionInner::RemoveLink {
                    previous: previous.clone(),
                },
                PlannedActionInner::ForgetMissing { previous } =>
                    PlannedActionInner::ForgetMissing { previous: previous.clone() },
                PlannedActionInner::Noop { desired, previous } => PlannedActionInner::Noop {
                    desired: desired.clone(),
                    previous: previous.clone(),
                },
            },
        }
    }
}

impl PlannedAction {
    #[verifier::type_invariant]
    spec fn coherent(self) -> bool {
        fits(self@)
    }

    /// Selects creation at a target that was observed missing.
    pub fn create_link(desired: ResolvedFileLink) -> (action: Self)
        ensures
            action@ == (ActionView::Create { desired: EffectView::Link(desired@) }),
    {
        PlannedAction { inner: PlannedActionInner::CreateLink { desired } }
    }

    /// Selects a replacement at the same target of an expected managed link.
    pub fn replace_link(desired: ResolvedFileLink, previous: KnownFileLink) -> (outcome: Result<
        Self,
        PlannedActionError,
    >)
        ensures
            match outcome {
                Ok(action) => mismatch(desired@, previous@) is None && !same_path(
                    desired@.link_target,
                    previous@.link_target,
                ) && action@ == (ActionView::Replace {
                    desired: EffectView::Link(desired@),
                    previous: EffectView::Link(previous@),
                }),
                Err(error) => if mismatch(desired@, previous@) is Some {
                    mismatch(desired@, previous@) == Some(error)
                } else {
                    same_path(desired@.link_target, previous@.link_target) && error
                        == PlannedActionError::LinkTargetUnchanged
                },
            },
    {
        match require_same_resource_id(&desired, &previous) {
            Ok(_) => {},
            Err(error) => return Err(error),
        }
        match require_same_target(&desired, &previous) {
            Ok(_) => {},
            Err(error) => return Err(error),
        }
        if desired.link_target().same(previous.link_target()) {
            return Err(PlannedActionError::LinkTargetUnchanged);
        }
        Ok(PlannedAction { inner: PlannedActionInner::ReplaceLink { desired, previous } })
    }

    /// Selects relocation when one resource changes to another target.
    pub fn relocate_link(desired: ResolvedFileLink, previous: KnownFileLink) -> (outcome: Result<
        Self,
        PlannedActionError,
    >)
        ensures
            match outcome {
                Ok(action) => desired@.resource_id == previous@.resource_id && !same_path(
                    desired@.target_path,
                    previous@.target_path,
                ) && action@ == (ActionView::Relocate {
                    desired: EffectView::Link(desired@),
                    previous: EffectView::Link(previous@),
                }),
                Err(error) => error == if desired@.resource_id != previous@.resource_id {
                    PlannedActionError::ResourceIdMismatch
                } else {
                    PlannedActionError::TargetPathUnchanged
                } && (desired@.resource_id != previous@.resource_id || same_path(
                    desired@.target_path,
                    previous@.target_path,
                )),
            },
    {
        match require_same_resource_id(&desired, &previous) {
            Ok(_) => {},
            Err(error) => return Err(error),
        }
        if desired.target_path().same(previous.target_path()) {
            return Err(PlannedActionError::TargetPathUnchanged);
        }
        Ok(PlannedAction { inner: PlannedActionInner::RelocateLink { desired, previous } })
    }

    /// Selects a handoff of one target from a managed resource to another resource.
    pub fn replace_ownership(desired: ResolvedFileLink, previous: KnownFileLink) -> (outcome: Result<
        Self,
        PlannedActionError,
    >)
        ensures
            match outcome {
                Ok(action) => desired@.resource_id != previous@.resource_id && same_path(
                    desired@.target_path,
                    previous@.target_path,
                ) && action@ == (ActionView::ReplaceOwnership {
                    desired: EffectView::Link(desired@),
                    previous: EffectView::Link(previous@),
                }),
                Err(error) => error == if desired@.resource_id == previous@.resource_id {
                    PlannedActionError::ResourceIdsEqual
                } else {
                    PlannedActionError::TargetPathMismatch
                } && (desired@.resource_id == previous@.resource_id || !same_path(
                    desired@.target_path,
                    previous@.target_path,
                )),
            },
    {
        if desired.resource_id().same(previous.resource_id()) {
            return Err(PlannedActionError::ResourceIdsEqual);
        }
        match require_same_target(&desired, &previous) {
            Ok(_) => {},
            Err(error) => return Err(error),
        }
        Ok(PlannedAction { inner: PlannedActionInner::ReplaceOwnership { desired, previous } })
    }

    /// Selects deletion of a stale link whose ownership was proven.
    pub fn remove_link(previous: KnownFileLink) -> (action: Self)
        ensures
            action@ == (ActionView::Remove { previous: EffectView::Link(previous@) }),
    {
        PlannedAction { inner: PlannedActionInner::RemoveLink { previous } }
    }

    /// Selects removal of a stale fact, with no change of any file.
    pub fn forget_missing(previous: KnownFileLink) -> (action: Self)
        ensures
            action@ == (ActionView::ForgetMissing { previous: EffectView::Link(previous@) }),
    {
        PlannedAction { inner: PlannedActionInner::ForgetMissing { previous } }
    }

    /// Records that the wanted and the recorded definition already agree.
    pub fn noop(desired: ResolvedFileLink, previous: KnownFileLink) -> (outcome: Result<
        Self,
        PlannedActionError,
    >)
        ensures
            match outcome {
                Ok(action) => same_link(desired@, previous@) && action@ == (ActionView::Noop {
                    desired: EffectView::Link(desired@),
                    previous: EffectView::Link(previous@),
                }),
                Err(error) => if mismatch(desired@, previous@) is Some {
                    mismatch(desired@, previous@) == Some(error)
                } else {
                    !same_link(desired@, previous@) && error
                        == PlannedActionError::DefinitionChanged
                },
            },
    {
        match require_same_resource_id(&desired, &previous) {
            Ok(_) => {},
            Err(error) => return Err(error),
        }
        match require_same_target(&desired, &previous) {
            Ok(_) => {},
            Err(error) => return Err(error),
        }
        if !desired.source_path().same(previous.source_path()) || !desired.link_target().same(
            previous.link_target(),
        ) {
            return Err(PlannedActionError::DefinitionChanged);
        }
        Ok(PlannedAction { inner: PlannedActionInner::Noop { desired, previous } })
    }

    /// What the action does. The payload of every link action fits it.
    pub fn kind(&self) -> (kind: ActionKind)
        ensures
            kind == self@.kind(),
            fits(self@),
    {
        proof {
            use_type_invariant(self);
        }
        match &self.inner {
            PlannedActionInner::CreateLink { .. } => ActionKind::CreateLink,
            PlannedActionInner::ReplaceLink { .. } => ActionKind::ReplaceLink,
            PlannedActionInner::RelocateLink { .. } => ActionKind::RelocateLink,
            PlannedActionInner::ReplaceOwnership { .. } => ActionKind::ReplaceOwnership,
            PlannedActionInner::RemoveLink { .. } => ActionKind::RemoveLink,
            PlannedActionInner::ForgetMissing { .. } => ActionKind::ForgetMissing,
            PlannedActionInner::Noop { .. } => ActionKind::Noop,
        }
    }

    /// Why the action is selected.
    pub fn reason(&self) -> (reason: ActionReason)
        ensures
            reason == self@.reason(),
    {
        match &self.inner {
            PlannedActionInner::CreateLink { .. } => ActionReason::TargetMissing,
            PlannedActionInner::ReplaceLink { .. } => ActionReason::SourceChanged,
            PlannedActionInner::RelocateLink { .. } => ActionReason::TargetChanged,
            PlannedActionInner::ReplaceOwnership { .. } => ActionReason::ManagedIdentityHandoff,
            PlannedActionInner::RemoveLink { .. } => ActionReason::StaleResource,
            PlannedActionInner::ForgetMissing { .. } => ActionReason::StaleResourceTargetMissing,
            PlannedActionInner::Noop { .. } => ActionReason::AlreadySatisfied,
        }
    }

    /// The resource that gives the action its place.
    pub fn resource_id(&self) -> (id: &FullyQualifiedResourceId)
        ensures
            id@ == self@.resource_id(),
    {
        match &self.inner {
            PlannedActionInner::CreateLink { desired } => desired.resource_id(),
            PlannedActionInner::ReplaceLink { desired, .. } => desired.resource_id(),
            PlannedActionInner::RelocateLink { desired, .. } => desired.resource_id(),
            PlannedActionInner::ReplaceOwnership { desired, .. } => desired.resource_id(),
            PlannedActionInner::Noop { desired, .. } => desired.resource_id(),
            PlannedActionInner::RemoveLink { previous } => previous.resource_id(),
            PlannedActionInner::ForgetMissing { previous } => previous.resource_id(),
        }
    }

    /// The resource whose ownership passes to another.
    pub fn replaced_resource_id(&self) -> (id: Option<&FullyQualifiedResourceId>)
        ensures
            match id {
                Some(id) => self@.replaced_resource_id() == Some(id@),
                None => self@.replaced_resource_id() is None,
            },
    {
        match &self.inner {
            PlannedActionInner::ReplaceOwnership { previous, .. } => Some(previous.resource_id()),
            _ => None,
        }
    }

    /// What must hold immediately before the action.
    pub fn preconditions(&self) -> (conditions: Vec<TargetCondition>)
        ensures
            condition_views(conditions@) == self@.preconditions(),
    {
        match &self.inner {
            PlannedActionInner::CreateLink { desired } => one_condition(
                missing(desired.target_path()),
            ),
            PlannedActionInner::ReplaceLink { previous, .. } => one_condition(expected(previous)),
            PlannedActionInner::ReplaceOwnership { previous, .. } => one_condition(
                expected(previous),
            ),
            PlannedActionInner::RemoveLink { previous } => one_condition(expected(previous)),
            PlannedActionInner::RelocateLink { desired, previous } => two_conditions(
                expected(previous),
                missing(desired.target_path()),
            ),
            PlannedActionInner::ForgetMissing { previous } => one_condition(
                missing(previous.target_path()),
            ),
            PlannedActionInner::Noop { previous, .. } => one_condition(expected(previous)),
        }
    }

    /// What must hold before the recorded facts may change.
    pub fn postconditions(&self) -> (conditions: Vec<TargetCondition>)
        ensures
            condition_views(conditions@) == self@.postconditions(),
    {
        match &self.inner {
            PlannedActionInner::CreateLink { desired } => one_condition(expected_desired(desired)),
            PlannedActionInner::ReplaceLink { desired, .. } => one_condition(
                expected_desired(desired),
            ),
            PlannedActionInner::ReplaceOwnership { desired, .. } => one_condition(
                expected_desired(desired),
            ),
            PlannedActionInner::Noop { desired, .. } => one_condition(expected_desired(desired)),
            PlannedActionInner::RelocateLink { desired, previous } => two_conditions(
                missing(previous.target_path()),
                expected_desired(desired),
            ),
            PlannedActionInner::RemoveLink { previous } => one_condition(
                missing(previous.target_path()),
            ),
            PlannedActionInner::ForgetMissing { previous } => one_condition(
                missing(previous.target_path()),
            ),
        }
    }

    /// The transition that the postcondition makes eligible.
    pub fn known_state_update(&self) -> (update: Option<KnownStateUpdate>)
        ensures
            update_view(update) == self@.update(),
    {
        match &self.inner {
            PlannedActionInner::CreateLink { desired } => Some(
                KnownStateUpdate::Upsert { resource: KnownFileLink::from_resolved(desired) },
            ),
            PlannedActionInner::ReplaceLink { desired, .. } => Some(
                KnownStateUpdate::Upsert { resource: KnownFileLink::from_resolved(desired) },
            ),
            PlannedActionInner::RelocateLink { desired, .. } => Some(
                KnownStateUpdate::Upsert { resource: KnownFileLink::from_resolved(desired) },
            ),
            PlannedActionInner::ReplaceOwnership { desired, previous } => Some(
                KnownStateUpdate::ReplaceIdentity {
                    old_resource_id: previous.resource_id().clone(),
                    new_resource: KnownFileLink::from_resolved(desired),
                },
            ),
            PlannedActionInner::RemoveLink { previous } => Some(
                KnownStateUpdate::Remove { resource_id: previous.resource_id().clone() },
            ),
            PlannedActionInner::ForgetMissing { previous } => Some(
                KnownStateUpdate::Remove { resource_id: previous.resource_id().clone() },
            ),
            PlannedActionInner::Noop { .. } => None,
        }
    }

    /// The targets that the action touches.
    pub fn touched_targets(&self) -> (targets: Vec<&ResolvedPath>)
        ensures
            path_views(targets@) == self@.touched(),
    {
        match &self.inner {
            PlannedActionInner::CreateLink { desired } => one_path(desired.target_path()),
            PlannedActionInner::ReplaceLink { desired, .. } => one_path(desired.target_path()),
            PlannedActionInner::ReplaceOwnership { desired, .. } => one_path(desired.target_path()),
            PlannedActionInner::Noop { desired, .. } => one_path(desired.target_path()),
            PlannedActionInner::RelocateLink { desired, previous } => two_paths(
                previous.target_path(),
                desired.target_path(),
            ),
            PlannedActionInner::RemoveLink { previous } => one_path(previous.target_path()),
            PlannedActionInner::ForgetMissing { previous } => one_path(previous.target_path()),
        }
    }
}

/// A handoff between two effects of one resource at one target.
#[derive(Debug, PartialEq, Eq)]
pub struct PlannedEffectHandoff {
    old_effect: KnownResource,
    final_effect: ResolvedResource,
}

impl View for PlannedEffectHandoff {
    type V = ActionView;

    closed spec fn view(&self) -> ActionView {
        ActionView::ReplaceEffect { desired: self.final_effect@, previous: self.old_effect@ }
    }
}

impl Clone for PlannedEffectHandoff {
    fn clone(&self) -> (copy: Self)
        ensures
            copy@ == self@,
    {
        PlannedEffectHandoff {
            old_effect: self.old_effect.clone(),
            final_effect: self.final_effect.clone(),
        }
    }
}

impl PlannedEffectHandoff {
    /// Selects the handoff; the target is compared before the resource.
    pub fn new(old_effect: KnownResource, final_effect: ResolvedResource) -> (outcome: Result<
        Self,
        PlannedActionError,
    >)
        ensures
            match outcome {
                Ok(action) => old_effect@.target_key() == final_effect@.target_key()
                    && old_effect@.resource_id() == final_effect@.resource_id() && action@ == (
                ActionView::ReplaceEffect { desired: final_effect@, previous: old_effect@ }),
                Err(error) => if old_effect@.target_key() != final_effect@.target_key() {
                    error == PlannedActionError::TargetPathMismatch
                } else {
                    old_effect@.resource_id() != final_effect@.resource_id() && error
                        == PlannedActionError::ResourceIdMismatch
                },
            },
    {
        if !old_effect.target_path().same(final_effect.target_path()) {
            return Err(PlannedActionError::TargetPathMismatch);
        }
        if !old_effect.resource_id().same(final_effect.resource_id()) {
            return Err(PlannedActionError::ResourceIdMismatch);
        }
        Ok(PlannedEffectHandoff { old_effect, final_effect })
    }

    /// The resource whose effect changes.
    pub fn resource_id(&self) -> (id: &FullyQualifiedResourceId)
        ensures
            id@ == self@.resource_id(),
            self@ is ReplaceEffect,
    {
        self.final_effect.resource_id()
    }

    /// The complete old owned effect.
    pub fn old_effect(&self) -> (effect: &KnownResource)
        ensures
            self@.previous() == Some(effect@),
            self@ is ReplaceEffect,
    {
        &self.old_effect
    }

    /// The exact final effect.
    pub fn final_effect(&self) -> (effect: &ResolvedResource)
        ensures
            self@.desired() == Some(effect@),
            self@ is ReplaceEffect,
    {
        &self.final_effect
    }

    /// The target that the handoff touches.
    pub fn touched_targets(&self) -> (targets: Vec<&ResolvedPath>)
        ensures
            path_views(targets@) == self@.touched(),
    {
        one_path(self.final_effect.target_path())
    }

    /// The old effect, required before the handoff can start.
    pub fn preconditions(&self) -> (conditions: Vec<TargetCondition>)
        ensures
            condition_views(conditions@) == self@.preconditions(),
    {
        one_condition(condition_for_known_effect(&self.old_effect))
    }

    /// The final effect, required before the recorded facts change.
    pub fn postconditions(&self) -> (conditions: Vec<TargetCondition>)
        ensures
            condition_views(conditions@) == self@.postconditions(),
    {
        one_condition(condition_for_resolved_effect(&self.final_effect))
    }

    /// The final effect takes the place of the old fact.
    pub fn known_state_update(&self) -> (update: ResourceKnownStateUpdate)
        ensures
            self@.update() == Some(update@),
    {
        ResourceKnownStateUpdate::Upsert { resource: known_from_resolved_effect(&self.final_effect) }
    }
}

/// A member of a plan.
#[derive(Debug, PartialEq, Eq)]
pub enum PlannedResourceAction {
    FileLink(PlannedAction),
    FileCopy(PlannedFileCopyAction),
    ReplaceEffect(PlannedEffectHandoff),
}

impl View for PlannedResourceAction {
    type V = ActionView;

    open spec fn view(&self) -> ActionView {
        match self {
            PlannedResourceAction::FileLink(action) => action@,
            PlannedResourceAction::FileCopy(action) => action@,
            PlannedResourceAction::ReplaceEffect(action) => action@,
        }
    }
}

impl Clone for PlannedResourceAction {
    fn clone(&self) -> (copy: Self)
        ensures
            copy@ == self@,
            copy is FileLink == self is FileLink,
            copy is FileCopy == self is FileCopy,
    {
        match self {
            PlannedResourceAction::FileLink(action) => PlannedResourceAction::FileLink(
                action.clone(),
            ),
            PlannedResourceAction::FileCopy(action) => PlannedResourceAction::FileCopy(
                action.clone(),
            ),
            PlannedResourceAction::ReplaceEffect(action) => PlannedResourceAction::ReplaceEffect(
                action.clone(),
            ),
        }
    }
}

impl PlannedResourceAction {
    /// What the action does.
    pub fn kind(&self) -> (kind: ActionKind)
        ensures
            kind == self@.kind(),
    {
        match self {
            PlannedResourceAction::FileLink(action) => action.kind(),
            PlannedResourceAction::FileCopy(action) => action.kind(),
            PlannedResourceAction::ReplaceEffect(action) => {
                let _ = action.old_effect();
                ActionKind::ReplaceEffect
            },
        }
    }

    /// Why the action is selected.
    pub fn reason(&self) -> (reason: ActionReason)
        ensures
            reason == self@.reason(),
    {
        match self {
            PlannedResourceAction::FileLink(action) => action.reason(),
            PlannedResourceAction::FileCopy(action) => action.reason(),
            PlannedResourceAction::ReplaceEffect(action) => {
                let _ = action.old_effect();
                ActionReason::SourceChanged
            },
        }
    }

    /// The resource that gives the action its place.
    pub fn resource_id(&self) -> (id: &FullyQualifiedResourceId)
        ensures
            id@ == self@.resource_id(),
    {
        match self {
            PlannedResourceAction::FileLink(action) => action.resource_id(),
            PlannedResourceAction::FileCopy(action) => action.resource_id(),
            PlannedResourceAction::ReplaceEffect(action) => action.resource_id(),
        }
    }

    /// The targets that the action touches.
    pub fn touched_targets(&self) -> (targets: Vec<&ResolvedPath>)
        ensures
            path_views(targets@) == self@.touched(),
    {
        match self {
            PlannedResourceAction::FileLink(action) => action.touched_targets(),
            PlannedResourceAction::FileCopy(action) => action.touched_targets(),
            PlannedResourceAction::ReplaceEffect(action) => action.touched_targets(),
        }
    }

    /// What must be rechecked before execution.
    pub fn preconditions(&self) -> (conditions: Vec<TargetCondition>)
        ensures
            condition_views(conditions@) == self@.preconditions(),
    {
        match self {
            PlannedResourceAction::FileLink(action) => action.preconditions(),
            PlannedResourceAction::FileCopy(action) => action.preconditions(),
            PlannedResourceAction::ReplaceEffect(action) => action.preconditions(),
        }
    }

    /// What is required before the recorded facts change.
    pub fn postconditions(&self) -> (conditions: Vec<TargetCondition>)
        ensures
            condition_views(conditions@) == self@.postconditions(),
    {
        match self {
            PlannedResourceAction::FileLink(action) => action.postconditions(),
            PlannedResourceAction::FileCopy(action) => action.postconditions(),
            PlannedResourceAction::ReplaceEffect(action) => action.postconditions(),
        }
    }

    /// The transition that the postcondition makes eligible.
    pub fn known_state_update(&self) -> (update: Option<ResourceKnownStateUpdate>)
        ensures
            resource_update_view(update) == self@.update(),
    {
        match self {
            PlannedResourceAction::FileLink(action) => match action.known_state_update() {
                Some(update) => Some(ResourceKnownStateUpdate::from_update(update)),
                None => None,
            },
            PlannedResourceAction::FileCopy(action) => match action.known_state_update() {
                Some(update) => Some(ResourceKnownStateUpdate::from_update(update)),
                None => None,
            },
            PlannedResourceAction::ReplaceEffect(action) => Some(action.known_state_update()),
        }
    }

    /// The resource whose ownership passes to another.
    pub fn replaced_resource_id(&self) -> (id: Option<&FullyQualifiedResourceId>)
        ensures
            match id {
                Some(id) => self@.replaced_resource_id() == Some(id@),
                None => self@.replaced_resource_id() is None,
            },
    {
        match self {
            PlannedResourceAction::FileLink(action) => action.replaced_resource_id(),
            PlannedResourceAction::FileCopy(_) => None,
            PlannedResourceAction::ReplaceEffect(action) => {
                let _ = action.old_effect();
                None
            },
        }
    }
}

/// The actions of a list, in order.
pub open spec fn action_views(list: Seq<PlannedResourceAction>) -> Seq<ActionView> {
    Seq::new(list.len(), |i: int| list[i]@)
}

/// The link actions of a list, in order.
pub open spec fn link_action_views(list: Seq<PlannedAction>) -> Seq<ActionView> {
    Seq::new(list.len(), |i: int| list[i]@)
}

/// The link actions among the members of a plan, in order.
pub open spec fn link_actions_of(list: Seq<PlannedResourceAction>) -> Seq<ActionView>
    decreases list.len(),
{
    if list.len() == 0 {
        Seq::empty()
    } else if list.last() is FileLink {
        link_actions_of(list.drop_last()).push(list.last()@)
    } else {
        link_actions_of(list.drop_last())
    }
}

/// One resource's claim to a target.
pub struct ClaimView {
    pub target_path: Seq<char>,
    pub resource_id: Seq<char>,
}

/// The claims of one action: its resource to each target that it touches.
pub open spec fn claims_of(action: ActionView) -> Seq<ClaimView> {
    Seq::new(
        action.touched().len(),
        |i: int| ClaimView { target_path: action.touched()[i], resource_id: action.resource_id() },
    )
}

/// The claims of a list of actions, in order.
pub open spec fn claims(actions: Seq<ActionView>) -> Seq<ClaimView>
    decreases actions.len(),
{
    if actions.len() == 0 {
        Seq::empty()
    } else {
        claims(actions.drop_last()) + claims_of(actions.last())
    }
}

/// Whether the first `n` claims are to different targets.
pub open spec fn separate_until(claims: Seq<ClaimView>, n: int) -> bool {
    forall|i: int, j: int|
        0 <= i < j < n ==> !same_path(
            (#[trigger] claims[i]).target_path,
            (#[trigger] claims[j]).target_path,
        )
}

/// Whether the claim at `i` is the first to a claimed target, and the claim at `j` came before.
pub open spec fn repeats_claim(claims: Seq<ClaimView>, i: int, j: int) -> bool {
    &&& 0 <= j < i < claims.len()
    &&& separate_until(claims, i)
    &&& same_path(claims[j].target_path, claims[i].target_path)
}

/// A plan: its actions in order, and the obstacles that planning met.
pub struct PlanView {
    pub actions: Seq<ActionView>,
    pub diagnostics: Seq<Diagnostic>,
    pub links: Seq<ActionView>,
}

impl PlanView {
    /// Whether the plan may be executed: every action is a link action, and nothing blocks.
    pub open spec fn executable(self) -> bool {
        &&& self.links.len() == self.actions.len()
        &&& forall|i: int|
            0 <= i < self.diagnostics.len() ==> !(#[trigger] self.diagnostics[i]).blocks()
    }
}

/// An immutable plan: no two actions touch one target.
#[derive(Debug, PartialEq, Eq)]
pub struct Plan {
    actions: Vec<PlannedAction>,
    resource_actions: Vec<PlannedResourceAction>,
    diagnostics: Vec<Diagnostic>,
}

impl View for Plan {
    type V = PlanView;

    closed spec fn view(&self) -> PlanView {
        PlanView {
            actions: action_views(self.resource_actions@),
            diagnostics: self.diagnostics@,
            links: link_action_views(self.actions@),
        }
    }
}

/// The reason a plan would be unsafe to execute.
#[derive(Debug, PartialEq, Eq)]
pub enum PlanError {
    DuplicateActionTarget {
        target_path: ResolvedPath,
        first_resource_id: FullyQualifiedResourceId,
        duplicate_resource_id: FullyQualifiedResourceId,
    },
}

/// What building a plan from actions gives: the first target claimed twice decides.
pub open spec fn plans(
    actions: Seq<PlannedResourceAction>,
    diagnostics: Seq<Diagnostic>,
    outcome: Result<Plan, PlanError>,
) -> bool {
    let claimed = claims(action_views(actions));
    match outcome {
        Ok(plan) => separate_until(claimed, claimed.len() as int) && plan@ == (PlanView {
            actions: action_views(actions),
            diagnostics,
            links: link_actions_of(actions),
        }),
        Err(
            PlanError::DuplicateActionTarget {
                target_path,
                first_resource_id,
                duplicate_resource_id,
            },
        ) => exists|i: int, j: int|
            #[trigger] repeats_claim(claimed, i, j) && target_path@ == claimed[i].target_path
                && first_resource_id@ == claimed[j].resource_id && duplicate_resource_id@
                == claimed[i].resource_id,
    }
}

impl Plan {
    #[verifier::type_invariant]
    spec fn safe(self) -> bool {
        let claimed = claims(action_views(self.resource_actions@));
        &&& separate_until(claimed, claimed.len() as int)
        &&& link_action_views(self.actions@) == link_actions_of(self.resource_actions@)
    }

    /// Builds a plan of link actions, rejecting two that touch one target.
    pub fn new(actions: Vec<PlannedAction>, diagnostics: Vec<Diagnostic>) -> (outcome: Result<
        Self,
        PlanError,
    >)
        ensures
            ({
                let claimed = claims(link_action_views(actions@));
                match outcome {
                    Ok(plan) => separate_until(claimed, claimed.len() as int) && plan@ == (
                    PlanView {
                        actions: link_action_views(actions@),
                        diagnostics: diagnostics@,
                        links: link_action_views(actions@),
                    }),
                    Err(
                        PlanError::DuplicateActionTarget {
                            target_path,
                            first_resource_id,
                            duplicate_resource_id,
                        },
                    ) => exists|i: int, j: int|
                        #[trigger] repeats_claim(claimed, i, j) && target_path@
                            == claimed[i].target_path && first_resource_id@
                            == claimed[j].resource_id && duplicate_resource_id@
                            == claimed[i].resource_id,
                }
            }),
    {
        let mut list: Vec<PlannedResourceAction> = Vec::new();
        let mut i: usize = 0;
        while i < actions.len()
            invariant
                i <= actions@.len(),
                list@.len() == i,
                forall|k: int|
                    0 <= k < i ==> (#[trigger] list@[k]) is FileLink && list@[k]@ == actions@[k]@,
            decreases actions.len() - i,
        {
            list.push(PlannedResourceAction::FileLink(actions[i].clone()));
            i += 1;
        }
        proof {
            assert(action_views(list@) =~= link_action_views(actions@));
            lemma_all_links(list@);
        }
        Self::from_resource_actions(list, diagnostics)
    }

    /// Builds a plan of any actions.
    pub fn new_with_resource_actions(
        actions: Vec<PlannedResourceAction>,
        diagnostics: Vec<Diagnostic>,
    ) -> (outcome: Result<Self, PlanError>)
        ensures
            plans(actions@, diagnostics@, outcome),
    {
        Self::from_resource_actions(actions, diagnostics)
    }

    fn from_resource_actions(
        actions: Vec<PlannedResourceAction>,
        diagnostics: Vec<Diagnostic>,
    ) -> (outcome: Result<Self, PlanError>)
        ensures
            plans(actions@, diagnostics@, outcome),
    {
        let ghost views = action_views(actions@);
        let ghost whole = claims(views);
        let mut claimed_paths: Vec<&ResolvedPath> = Vec::new();
        let mut claimed_ids: Vec<&FullyQualifiedResourceId> = Vec::new();
        let mut links: Vec<PlannedAction> = Vec::new();
        let mut i: usize = 0;
        proof {
            assert(views.take(0) =~= Seq::<ActionView>::empty());
            assert(actions@.take(0) =~= Seq::<PlannedResourceAction>::empty());
            assert(link_action_views(links@) =~= link_actions_of(actions@.take(0)));
        }
        while i < actions.len()
            invariant
                i <= actions@.len(),
                views == action_views(actions@),
                whole == claims(views),
                claimed_paths@.len() == claimed_ids@.len(),
                claimed_paths@.len() == claims(views.take(i as int)).len(),
                forall|k: int|
                    0 <= k < claimed_paths@.len() ==> (#[trigger] claims(
                        views.take(i as int),
                    )[k]) == (ClaimView {
                        target_path: claimed_paths@[k]@,
                        resource_id: claimed_ids@[k]@,
                    }),
                separate_until(
                    claims(views.take(i as int)),
                    claims(views.take(i as int)).len() as int,
                ),
                link_action_views(links@) == link_actions_of(actions@.take(i as int)),
                links@.len() == link_actions_of(actions@.take(i as int)).len(),
            decreases actions.len() - i,
        {
            let action = &actions[i];
            let targets = action.touched_targets();
            let id = action.resource_id();
            let ghost front = claims(views.take(i as int));
            let ghost own = claims_of(views[i as int]);
            let ghost after = claims(views.take(i + 1));
            proof {
                assert(views.take(i + 1).drop_last() =~= views.take(i as int));
                assert(views.take(i + 1).last() == views[i as int]);
                assert(after == front + own);
                lemma_claims_prefix(views, i + 1);
                assert(path_views(targets@).len() == targets@.len());
            }
            let mut k: usize = 0;
            while k < targets.len()
                invariant
                    i < actions@.len(),
                    k <= targets@.len(),
                    views == action_views(actions@),
                    *action == actions@[i as int],
                    id@ == views[i as int].resource_id(),
                    path_views(targets@) == views[i as int].touched(),
                    targets@.len() == views[i as int].touched().len(),
                    front == claims(views.take(i as int)),
                    own == claims_of(views[i as int]),
                    after == front + own,
                    after == claims(views.take(i + 1)),
                    whole == claims(views),
                    after.is_prefix_of(whole),
                    claimed_paths@.len() == claimed_ids@.len(),
                    claimed_paths@.len() == front.len() + k,
                    forall|m: int|
                        0 <= m < claimed_paths@.len() ==> (#[trigger] after[m]) == (ClaimView {
                            target_path: claimed_paths@[m]@,
                            resource_id: claimed_ids@[m]@,
                        }),
                    separate_until(after, front.len() + k),
                decreases targets.len() - k,
            {
                let ghost at = front.len() + k;
                proof {
                    assert(path_views(targets@)[k as int] == targets@[k as int]@);
                    assert(after[at] == own[k as int]);
                }
                let mut m: usize = 0;
                while m < claimed_paths.len()
                    invariant
                        m <= claimed_paths@.len(),
                        k < targets@.len(),
                        at == front.len() + k,
                        at < after.len(),
                        id@ == after[at].resource_id,
                        targets@[k as int]@ == after[at].target_path,
                        whole == claims(views),
                        views == action_views(actions@),
                        after.is_prefix_of(whole),
                        claimed_paths@.len() == claimed_ids@.len(),
                        claimed_paths@.len() == at,
                        forall|n: int|
                            0 <= n < claimed_paths@.len() ==> (#[trigger] after[n]) == (ClaimView {
                                target_path: claimed_paths@[n]@,
                                resource_id: claimed_ids@[n]@,
                            }),
                        separate_until(after, at),
                        forall|n: int|
                            0 <= n < m ==> !same_path(
                                (#[trigger] after[n]).target_path,
                                after[at].target_path,
                            ),
                    decreases claimed_paths.len() - m,
                {
                    if claimed_paths[m].same(targets[k]) {
                        proof {
                            assert(same_path(after[m as int].target_path, after[at].target_path));
                            assert forall|x: int| 0 <= x < after.len() implies #[trigger] whole[x]
                                == after[x] by {}
                            assert(separate_until(whole, at)) by {
                                assert forall|x: int, y: int| 0 <= x < y < at implies !same_path(
                                    (#[trigger] whole[x]).target_path,
                                    (#[trigger] whole[y]).target_path,
                                ) by {
                                    assert(!same_path(after[x].target_path, after[y].target_path));
                                }
                            }
                            assert(repeats_claim(whole, at, m as int));
                        }
                        return Err(
                            PlanError::DuplicateActionTarget {
                                target_path: targets[k].clone(),
                                first_resource_id: claimed_ids[m].clone(),
                                duplicate_resource_id: id.clone(),
                            },
                        );
                    }
                    m += 1;
                }
                claimed_paths.push(targets[k]);
                claimed_ids.push(id);
                k += 1;
            }
            proof {
                assert(actions@.take(i + 1).drop_last() =~= actions@.take(i as int));
                assert(actions@.take(i + 1).last() == actions@[i as int]);
            }
            match action {
                PlannedResourceAction::FileLink(link) => {
                    links.push(link.clone());
                    assert(link_action_views(links@) =~= link_actions_of(
                        actions@.take(i as int),
                    ).push(link@));
                },
                PlannedResourceAction::FileCopy(_) => {},
                PlannedResourceAction::ReplaceEffect(_) => {},
            }
            i += 1;
        }
        proof {
            assert(views.take(i as int) =~= views);
            assert(actions@.take(i as int) =~= actions@);
        }
        Ok(Plan { actions: links, resource_actions: actions, diagnostics })
    }

    /// The link actions in order.
    pub fn actions(&self) -> (actions: &Vec<PlannedAction>)
        ensures
            link_action_views(actions@) == self@.links,
    {
        &self.actions
    }

    /// Every action in order. No two of them touch one target.
    pub fn resource_actions(&self) -> (actions: &Vec<PlannedResourceAction>)
        ensures
            action_views(actions@) == self@.actions,
            separate_until(claims(self@.actions), claims(self@.actions).len() as int),
            self@.links == link_actions_of(actions@),
    {
        proof {
            use_type_invariant(self);
        }
        &self.resource_actions
    }

    /// The obstacles that planning met.
    pub fn diagnostics(&self) -> (diagnostics: &Vec<Diagnostic>)
        ensures
            diagnostics@ == self@.diagnostics,
    {
        &self.diagnostics
    }

    /// Whether the plan may be executed after preflight and confirmation.
    pub fn is_executable(&self) -> (executable: bool)
        ensures
            executable == self@.executable(),
    {
        if self.actions.len() != self.resource_actions.len() {
            return false;
        }
        let mut i: usize = 0;
        while i < self.diagnostics.len()
            invariant
                i <= self.diagnostics@.len(),
                forall|k: int| 0 <= k < i ==> !(#[trigger] self.diagnostics@[k]).blocks(),
            decreases self.diagnostics.len() - i,
        {
            if self.diagnostics[i].is_blocking() {
                assert(self@.diagnostics[i as int].blocks());
                return false;
            }
            i += 1;
        }
        true
    }
}

proof fn lemma_all_links(list: Seq<PlannedResourceAction>)
    requires
        forall|k: int| 0 <= k < list.len() ==> (#[trigger] list[k]) is FileLink,
    ensures
        link_actions_of(list) == action_views(list),
    decreases list.len(),
{
    if list.len() > 0 {
        assert(list[list.len() - 1] is FileLink);
        lemma_all_links(list.drop_last());
        assert(action_views(list.drop_last()).push(list.last()@) =~= action_views(list));
    } else {
        assert(action_views(list) =~= Seq::<ActionView>::empty());
    }
}

proof fn lemma_claims_prefix(actions: Seq<ActionView>, n: int)
    requires
        0 <= n <= actions.len(),
    ensures
        claims(actions.take(n)).is_prefix_of(claims(actions)),
    decreases actions.len() - n,
{
    if n == actions.len() {
        assert(actions.take(n) =~= actions);
    } else {
        lemma_claims_prefix(actions, n + 1);
        assert(actions.take(n + 1).drop_last() =~= actions.take(n));
        let longer = claims(actions.take(n + 1));
        let shorter = claims(actions.take(n));
        assert(longer == shorter + claims_of(actions.take(n + 1).last()));
        let whole = claims(actions);
        assert(shorter =~= whole.subrange(0, shorter.len() as int)) by {
            assert forall|x: int| 0 <= x < shorter.len() implies shorter[x] == whole[x] by {
                assert(longer[x] == whole.subrange(0, longer.len() as int)[x]);
            }
        }
    }
}

impl PlanError {
    /// What the error says.
    pub open spec fn message(self) -> Seq<char> {
        match self {
            PlanError::DuplicateActionTarget {
                target_path,
                first_resource_id,
                duplicate_resource_id,
            } => "plan target "@ + target_path@ + " is touched by both "@ + first_resource_id@
                + " and "@ + duplicate_resource_id@,
        }
    }

    /// What the error says.
    pub fn to_text(&self) -> (text: String)
        ensures
            text@ == self.message(),
    {
        match self {
            PlanError::DuplicateActionTarget {
                target_path,
                first_resource_id,
                duplicate_resource_id,
            } => copy_of("plan target ").concat(target_path.as_path()).concat(
                " is touched by both ",
            ).concat(first_resource_id.as_str()).concat(" and ").concat(
                duplicate_resource_id.as_str(),
            ),
        }
    }
}

/// An action records only what its postcondition shows: an effect that stands, or an effect that
/// is gone. An action that records nothing leaves what it found.
pub proof fn recorded_facts_are_shown_by_the_postcondition(action: ActionView)
    requires
        fits(action) || action.is_copy() || action is ReplaceEffect,
    ensures
        match action.update() {
            Some(UpdateView::Upsert { resource }) => action.postconditions().contains(
                stands(resource),
            ),
            Some(UpdateView::ReplaceIdentity { old_resource_id, new_resource }) =>
                action.postconditions().contains(stands(new_resource)) && action.previous()
                    is Some && action.previous()->0.resource_id() == old_resource_id,
            Some(UpdateView::Remove { resource_id }) => action.previous() is Some
                && action.previous()->0.resource_id() == resource_id
                && action.postconditions().contains(absent(action.previous()->0)),
            None => action is Noop,
        },
        fits(action) && action is Noop ==> conditions_agree(
            action.preconditions(),
            action.postconditions(),
        ),
{
    let after = action.postconditions();
    match action {
        ActionView::Relocate { desired, previous } => {
            assert(after[1] == stands(desired));
        },
        ActionView::Remove { previous } => {
            assert(after[0] == absent(previous));
        },
        ActionView::ForgetMissing { previous } => {
            assert(after[0] == absent(previous));
        },
        _ => {
            assert(after[0] == stands(action.desired()->0));
        },
    }
}

/// Whether a path is among others.
pub open spec fn lists_path(paths: Seq<Seq<char>>, path: Seq<char>) -> bool {
    exists|i: int| 0 <= i < paths.len() && same_path(#[trigger] paths[i], path)
}

/// What an action expects and what it leaves is about targets that it touches, and nothing else.
pub proof fn conditions_stay_within_touched_targets(action: ActionView, i: int)
    requires
        fits(action) || action is ReplaceEffect && action.desired()->0.target_key()
            == action.previous()->0.target_key(),
    ensures
        0 <= i < action.preconditions().len() ==> lists_path(
            action.touched(),
            action.preconditions()[i].target_path(),
        ),
        0 <= i < action.postconditions().len() ==> lists_path(
            action.touched(),
            action.postconditions()[i].target_path(),
        ),
{
    let touched = action.touched();
    assert(same_path(touched[0], touched[0]));
    if touched.len() > 1 {
        assert(same_path(touched[1], touched[1]));
    }
}

/// Every obstacle blocks.
pub proof fn every_obstacle_blocks(diagnostic: Diagnostic, blocking: bool)
    requires
        call_ensures(Diagnostic::is_blocking, (&diagnostic,), blocking),
    ensures
        blocking,
{
}

proof fn lemma_links_counted(list: Seq<PlannedResourceAction>)
    ensures
        link_actions_of(list).len() <= list.len(),
        link_actions_of(list).len() == list.len() <==> forall|i: int|
            0 <= i < list.len() ==> (#[trigger] list[i]) is FileLink,
    decreases list.len(),
{
    if list.len() > 0 {
        let rest = list.drop_last();
        lemma_links_counted(rest);
        if forall|i: int| 0 <= i < list.len() ==> (#[trigger] list[i]) is FileLink {
            assert forall|i: int| 0 <= i < rest.len() implies (#[trigger] rest[i]) is FileLink by {
                assert(list[i] is FileLink);
            }
            assert(list.last() is FileLink);
        } else {
            let i = choose|i: int| 0 <= i < list.len() && (#[trigger] list[i]) !is FileLink;
            if i < rest.len() {
                assert(rest[i] !is FileLink);
            }
        }
    }
}

/// A plan may be executed exactly if planning met no obstacle and every action is on a link alone.
pub proof fn plan_is_executable_exactly_without_obstacles(
    actions: Vec<PlannedResourceAction>,
    diagnostics: Vec<Diagnostic>,
    plan: Plan,
    executable: bool,
)
    requires
        call_ensures(
            Plan::new_with_resource_actions,
            (actions, diagnostics),
            Ok::<Plan, PlanError>(plan),
        ),
        call_ensures(Plan::is_executable, (&plan,), executable),
    ensures
        executable <==> diagnostics@.len() == 0 && forall|i: int|
            0 <= i < actions@.len() ==> (#[trigger] actions@[i]) is FileLink,
{
    lemma_links_counted(actions@);
    assert(action_views(actions@).len() == actions@.len());
    if executable && diagnostics@.len() > 0 {
        assert(!plan@.diagnostics[0].blocks());
    }
}

/// Whether the touch `k` of the action at `a` and the touch `l` of the action at `b` are two, and
/// at one target.
pub open spec fn touch_one_target(
    actions: Seq<ActionView>,
    a: int,
    k: int,
    b: int,
    l: int,
) -> bool {
    &&& 0 <= a < actions.len()
    &&& 0 <= b < actions.len()
    &&& 0 <= k < actions[a].touched().len()
    &&& 0 <= l < actions[b].touched().len()
    &&& a < b || a == b && k < l
    &&& same_path(actions[a].touched()[k], actions[b].touched()[l])
}

spec fn claims_before(actions: Seq<ActionView>, a: int) -> int {
    claims(actions.take(a)).len() as int
}

proof fn lemma_claims_before(actions: Seq<ActionView>, a: int, b: int)
    requires
        0 <= a <= b <= actions.len(),
    ensures
        claims_before(actions, a) <= claims_before(actions, b),
        a < b ==> claims_before(actions, a) + actions[a].touched().len() <= claims_before(
            actions,
            b,
        ),
    decreases b - a,
{
    if a < b {
        assert(actions.take(b).drop_last() =~= actions.take(b - 1));
        assert(actions.take(b).last() == actions[b - 1]);
        assert(claims_of(actions[b - 1]).len() == actions[b - 1].touched().len());
        lemma_claims_before(actions, a, b - 1);
    }
}

proof fn lemma_claim_of(actions: Seq<ActionView>, a: int, k: int)
    requires
        0 <= a < actions.len(),
        0 <= k < actions[a].touched().len(),
    ensures
        claims_before(actions, a) + k < claims(actions).len(),
        claims(actions)[claims_before(actions, a) + k] == (ClaimView {
            target_path: actions[a].touched()[k],
            resource_id: actions[a].resource_id(),
        }),
    decreases actions.len(),
{
    let rest = actions.drop_last();
    if a == actions.len() - 1 {
        assert(actions.take(a) =~= rest);
    } else {
        assert(rest.take(a) =~= actions.take(a));
        lemma_claim_of(rest, a, k);
    }
}

proof fn lemma_claimed_by(actions: Seq<ActionView>, i: int) -> (place: (int, int))
    requires
        0 <= i < claims(actions).len(),
    ensures
        0 <= place.0 < actions.len(),
        0 <= place.1 < actions[place.0].touched().len(),
        i == claims_before(actions, place.0) + place.1,
    decreases actions.len(),
{
    let rest = actions.drop_last();
    if i < claims(rest).len() {
        let place = lemma_claimed_by(rest, i);
        assert(rest.take(place.0) =~= actions.take(place.0));
        place
    } else {
        assert(actions.take(actions.len() - 1) =~= rest);
        (actions.len() - 1, i - claims(rest).len())
    }
}

/// A plan is refused exactly if two of its actions touch one target, or one action touches it
/// twice. The refusal names the target as the later touch writes it, and the two resources in the
/// order of their actions.
pub proof fn plan_is_refused_exactly_for_a_target_touched_twice(
    actions: Vec<PlannedResourceAction>,
    diagnostics: Vec<Diagnostic>,
    outcome: Result<Plan, PlanError>,
)
    requires
        call_ensures(Plan::new_with_resource_actions, (actions, diagnostics), outcome),
    ensures
        ({
            let views = action_views(actions@);
            &&& outcome is Err <==> exists|a: int, k: int, b: int, l: int|
                #[trigger] touch_one_target(views, a, k, b, l)
            &&& outcome matches Err(
                PlanError::DuplicateActionTarget {
                    target_path,
                    first_resource_id,
                    duplicate_resource_id,
                },
            ) ==> exists|a: int, k: int, b: int, l: int|
                #[trigger] touch_one_target(views, a, k, b, l) && target_path@
                    == views[b].touched()[l] && first_resource_id@ == views[a].resource_id()
                    && duplicate_resource_id@ == views[b].resource_id()
        }),
{
    let views = action_views(actions@);
    let claimed = claims(views);
    match outcome {
        Ok(_) => {
            assert forall|a: int, k: int, b: int, l: int|
                !(#[trigger] touch_one_target(views, a, k, b, l)) by {
                if touch_one_target(views, a, k, b, l) {
                    lemma_claim_of(views, a, k);
                    lemma_claim_of(views, b, l);
                    lemma_claims_before(views, a, b);
                    let i = claims_before(views, a) + k;
                    let j = claims_before(views, b) + l;
                    assert(0 <= i < j < claimed.len());
                    assert(!same_path(claimed[i].target_path, claimed[j].target_path));
                }
            }
        },
        Err(
            PlanError::DuplicateActionTarget {
                target_path,
                first_resource_id,
                duplicate_resource_id,
            },
        ) => {
            let (i, j) = choose|i: int, j: int|
                #[trigger] repeats_claim(claimed, i, j) && target_path@ == claimed[i].target_path
                    && first_resource_id@ == claimed[j].resource_id && duplicate_resource_id@
                    == claimed[i].resource_id;
            let (a, k) = lemma_claimed_by(views, j);
            let (b, l) = lemma_claimed_by(views, i);
            lemma_claim_of(views, a, k);
            lemma_claim_of(views, b, l);
            if a > b {
                lemma_claims_before(views, b, a);
            }
            assert(touch_one_target(views, a, k, b, l));
        },
    }
}

/// A link is replaced exactly if its resource and its target stay and what it holds changes. The first of
/// these that is not so is what is answered.
pub proof fn replace_link_is_selected_exactly_where_it_fits(
    desired: ResolvedFileLink,
    previous: KnownFileLink,
    outcome: Result<PlannedAction, PlannedActionError>,
)
    requires
        call_ensures(PlannedAction::replace_link, (desired, previous), outcome),
    ensures
        ({
            let same_resource = desired@.resource_id == previous@.resource_id;
            let same_target = same_path(desired@.target_path, previous@.target_path);
            let same_content = same_path(desired@.link_target, previous@.link_target);
            let same_source = same_path(desired@.source_path, previous@.source_path);
            &&& outcome is Ok <==> same_resource && same_target && !same_content
            &&& outcome matches Ok(action) ==> action@ == (ActionView::Replace {
                desired: EffectView::Link(desired@),
                previous: EffectView::Link(previous@),
            })
            &&& outcome == Err::<PlannedAction, PlannedActionError>(
                PlannedActionError::ResourceIdMismatch,
            ) <==> !same_resource
            &&& outcome == Err::<PlannedAction, PlannedActionError>(
                PlannedActionError::TargetPathMismatch,
            ) <==> same_resource && !same_target
            &&& outcome == Err::<PlannedAction, PlannedActionError>(
                PlannedActionError::LinkTargetUnchanged,
            ) <==> same_resource && same_target && same_content
        }),
{
}

/// A link is moved exactly if its resource stays and its target changes.
pub proof fn relocate_link_is_selected_exactly_where_it_fits(
    desired: ResolvedFileLink,
    previous: KnownFileLink,
    outcome: Result<PlannedAction, PlannedActionError>,
)
    requires
        call_ensures(PlannedAction::relocate_link, (desired, previous), outcome),
    ensures
        ({
            let same_resource = desired@.resource_id == previous@.resource_id;
            let same_target = same_path(desired@.target_path, previous@.target_path);
            let same_content = same_path(desired@.link_target, previous@.link_target);
            let same_source = same_path(desired@.source_path, previous@.source_path);
            &&& outcome is Ok <==> same_resource && !same_target
            &&& outcome matches Ok(action) ==> action@ == (ActionView::Relocate {
                desired: EffectView::Link(desired@),
                previous: EffectView::Link(previous@),
            })
            &&& outcome == Err::<PlannedAction, PlannedActionError>(
                PlannedActionError::ResourceIdMismatch,
            ) <==> !same_resource
            &&& outcome == Err::<PlannedAction, PlannedActionError>(
                PlannedActionError::TargetPathUnchanged,
            ) <==> same_resource && same_target
        }),
{
}

/// A link changes its owner exactly if its target stays and its resource changes.
pub proof fn replace_ownership_is_selected_exactly_where_it_fits(
    desired: ResolvedFileLink,
    previous: KnownFileLink,
    outcome: Result<PlannedAction, PlannedActionError>,
)
    requires
        call_ensures(PlannedAction::replace_ownership, (desired, previous), outcome),
    ensures
        ({
            let same_resource = desired@.resource_id == previous@.resource_id;
            let same_target = same_path(desired@.target_path, previous@.target_path);
            let same_content = same_path(desired@.link_target, previous@.link_target);
            let same_source = same_path(desired@.source_path, previous@.source_path);
            &&& outcome is Ok <==> !same_resource && same_target
            &&& outcome matches Ok(action) ==> action@ == (ActionView::ReplaceOwnership {
                desired: EffectView::Link(desired@),
                previous: EffectView::Link(previous@),
            })
            &&& outcome == Err::<PlannedAction, PlannedActionError>(
                PlannedActionError::ResourceIdsEqual,
            ) <==> same_resource
            &&& outcome == Err::<PlannedAction, PlannedActionError>(
                PlannedActionError::TargetPathMismatch,
            ) <==> !same_resource && !same_target
        }),
{
}

/// Nothing is to be done exactly if the resource, the source, the target and what the link holds all
/// stay.
pub proof fn noop_is_selected_exactly_where_it_fits(
    desired: ResolvedFileLink,
    previous: KnownFileLink,
    outcome: Result<PlannedAction, PlannedActionError>,
)
    requires
        call_ensures(PlannedAction::noop, (desired, previous), outcome),
    ensures
        ({
            let same_resource = desired@.resource_id == previous@.resource_id;
            let same_target = same_path(desired@.target_path, previous@.target_path);
            let same_content = same_path(desired@.link_target, previous@.link_target);
            let same_source = same_path(desired@.source_path, previous@.source_path);
            &&& outcome is Ok <==> same_resource && same_target && same_content
                && same_source
            &&& outcome matches Ok(action) ==> action@ == (ActionView::Noop {
                desired: EffectView::Link(desired@),
                previous: EffectView::Link(previous@),
            })
            &&& outcome == Err::<PlannedAction, PlannedActionError>(
                PlannedActionError::ResourceIdMismatch,
            ) <==> !same_resource
            &&& outcome == Err::<PlannedAction, PlannedActionError>(
                PlannedActionError::TargetPathMismatch,
            ) <==> same_resource && !same_target
            &&& outcome == Err::<PlannedAction, PlannedActionError>(
                PlannedActionError::DefinitionChanged,
            ) <==> same_resource && same_target && !(same_content && same_source)
        }),
{
}

/// An effect of another sort takes the place of one exactly if the target and the resource stay. The
/// target is compared first.
pub proof fn effect_is_handed_off_exactly_where_it_stands(
    old_effect: KnownResource,
    final_effect: ResolvedResource,
    outcome: Result<PlannedEffectHandoff, PlannedActionError>,
)
    requires
        call_ensures(PlannedEffectHandoff::new, (old_effect, final_effect), outcome),
    ensures
        ({
            let same_resource = old_effect@.resource_id() == final_effect@.resource_id();
            let same_target = same_path(old_effect@.target_path(), final_effect@.target_path());
            &&& outcome is Ok <==> same_resource && same_target
            &&& outcome == Err::<PlannedEffectHandoff, PlannedActionError>(
                PlannedActionError::TargetPathMismatch,
            ) <==> !same_target
            &&& outcome == Err::<PlannedEffectHandoff, PlannedActionError>(
                PlannedActionError::ResourceIdMismatch,
            ) <==> same_target && !same_resource
            &&& outcome matches Ok(action) ==> action@ == (ActionView::ReplaceEffect {
                desired: final_effect@,
                previous: old_effect@,
            })
        }),
{
}

/// A create, a removal and a forgetting are of the link that they were selected for.
pub proof fn single_effect_actions_are_of_their_link(
    desired: ResolvedFileLink,
    previous: KnownFileLink,
    created: PlannedAction,
    removed: PlannedAction,
    forgotten: PlannedAction,
)
    requires
        call_ensures(PlannedAction::create_link, (desired,), created),
        call_ensures(PlannedAction::remove_link, (previous,), removed),
        call_ensures(PlannedAction::forget_missing, (previous,), forgotten),
    ensures
        created@ == (ActionView::Create { desired: EffectView::Link(desired@) }),
        removed@ == (ActionView::Remove { previous: EffectView::Link(previous@) }),
        forgotten@ == (ActionView::ForgetMissing { previous: EffectView::Link(previous@) }),
{
}

/// Why an action does not fit says what the action requires, each reason in its own words.
pub proof fn action_that_does_not_fit_says_why(error: PlannedActionError, text: String)
    requires
        call_ensures(PlannedActionError::to_text, (&error,), text),
    ensures
        closes(text@, "same resource ID"@) <==> error is ResourceIdMismatch,
        closes(text@, "same target path"@) <==> error is TargetPathMismatch,
        opens(text@, "replace ownership requires distinct"@) <==> error is ResourceIdsEqual,
        opens(text@, "relocate link requires different"@) <==> error is TargetPathUnchanged,
        opens(text@, "replace link requires a changed"@) <==> error is LinkTargetUnchanged,
        opens(text@, "noop requires equal"@) <==> error is DefinitionChanged,
{
    reveal_strlit("this action requires Desired and Known records with the same resource ID");
    reveal_strlit("replace ownership requires distinct old and new resource identities");
    reveal_strlit("this action requires Desired and Known records with the same target path");
    reveal_strlit("relocate link requires different old and new target paths");
    reveal_strlit("replace link requires a changed resolved link target");
    reveal_strlit("noop requires equal Desired and Known file-link definitions");
    reveal_strlit("same resource ID");
    reveal_strlit("same target path");
    reveal_strlit("replace ownership requires distinct");
    reveal_strlit("relocate link requires different");
    reveal_strlit("replace link requires a changed");
    reveal_strlit("noop requires equal");
    // The letters by which the words are told apart.
    let letters = (text@[0], text@[2], text@[8], text@[text@.len() - 1]);
    let endings = (
        text@[text@.len() - "same resource ID"@.len() + 15],
        text@[text@.len() - "same target path"@.len() + 15],
    );
}

/// A plan that touches a target twice is refused with the target and both resources, the first one
/// first.
pub proof fn refused_plan_names_both_resources(
    target_path: ResolvedPath,
    first_resource_id: FullyQualifiedResourceId,
    duplicate_resource_id: FullyQualifiedResourceId,
    error: PlanError,
    text: String,
)
    requires
        error == (PlanError::DuplicateActionTarget {
            target_path,
            first_resource_id,
            duplicate_resource_id,
        }),
        call_ensures(PlanError::to_text, (&error,), text),
    ensures
        text@ == "plan target "@ + target_path@ + " is touched by both "@ + first_resource_id@
            + " and "@ + duplicate_resource_id@,
{
}

} // verus!
