//! What keeps an apply from going on: the reports of the executors, and the errors of an apply.

use vstd::prelude::*;
use vstd::string::*;
use crate::domain::actual::TargetObservation;
use crate::domain::ids::FullyQualifiedResourceId;
use crate::domain::plan::ActionKind;
use crate::state::repository::StateRepositoryError;
use crate::text::{closes, copy_of, join, join_texts, opens, texts};

verus! {

/// Why a link was not created.
#[derive(Debug, PartialEq, Eq)]
pub enum CreateLinkExecutionError {
    CreateAttemptFailed { aftermath: TargetObservation, message: String },
    PostconditionNotMet { observation: TargetObservation, message: String },
    PreconditionNoLongerHolds { message: String },
    UnsupportedAction { message: String },
    InvalidCreateConditions { message: String },
    SourceRecheck { message: String },
    SourceDoesNotMatchAction { message: String },
    TargetInspection { message: String },
    PlatformCapability { message: String },
    CreateAftermathUnproven { message: String },
    PostconditionInspection { message: String },
}

impl CreateLinkExecutionError {
    /// What the executor says of the error.
    pub open spec fn message(self) -> Seq<char> {
        match self {
            CreateLinkExecutionError::CreateAttemptFailed { message, .. } => message@,
            CreateLinkExecutionError::PostconditionNotMet { message, .. } => message@,
            CreateLinkExecutionError::PreconditionNoLongerHolds { message } => message@,
            CreateLinkExecutionError::UnsupportedAction { message } => message@,
            CreateLinkExecutionError::InvalidCreateConditions { message } => message@,
            CreateLinkExecutionError::SourceRecheck { message } => message@,
            CreateLinkExecutionError::SourceDoesNotMatchAction { message } => message@,
            CreateLinkExecutionError::TargetInspection { message } => message@,
            CreateLinkExecutionError::PlatformCapability { message } => message@,
            CreateLinkExecutionError::CreateAftermathUnproven { message } => message@,
            CreateLinkExecutionError::PostconditionInspection { message } => message@,
        }
    }

    /// What the executor says of the error.
    pub fn to_text(&self) -> (text: String)
        ensures
            text@ == self.message(),
    {
        match self {
            CreateLinkExecutionError::CreateAttemptFailed { message, .. } => copy_of(message.as_str()),
            CreateLinkExecutionError::PostconditionNotMet { message, .. } => copy_of(message.as_str()),
            CreateLinkExecutionError::PreconditionNoLongerHolds { message } => copy_of(message.as_str()),
            CreateLinkExecutionError::UnsupportedAction { message } => copy_of(message.as_str()),
            CreateLinkExecutionError::InvalidCreateConditions { message } => copy_of(message.as_str()),
            CreateLinkExecutionError::SourceRecheck { message } => copy_of(message.as_str()),
            CreateLinkExecutionError::SourceDoesNotMatchAction { message } => copy_of(message.as_str()),
            CreateLinkExecutionError::TargetInspection { message } => copy_of(message.as_str()),
            CreateLinkExecutionError::PlatformCapability { message } => copy_of(message.as_str()),
            CreateLinkExecutionError::CreateAftermathUnproven { message } => copy_of(message.as_str()),
            CreateLinkExecutionError::PostconditionInspection { message } => copy_of(message.as_str()),
        }
    }
}

/// What was found after a replacement that went wrong.
#[derive(Clone, Copy, Debug, PartialEq, Eq, Structural)]
pub struct ReplaceAftermath {
    pub precondition_holds: bool,
    pub postcondition_holds: bool,
}

/// Why a link was not replaced.
#[derive(Debug, PartialEq, Eq)]
pub enum ReplaceLinkExecutionError {
    MutationAttempt { aftermath: ReplaceAftermath, message: String },
    Aftermath { aftermath: ReplaceAftermath, message: String },
    PreconditionNoLongerHolds { message: String },
    Other { message: String },
}

impl ReplaceLinkExecutionError {
    /// What the executor says of the error.
    pub open spec fn message(self) -> Seq<char> {
        match self {
            ReplaceLinkExecutionError::MutationAttempt { message, .. } => message@,
            ReplaceLinkExecutionError::Aftermath { message, .. } => message@,
            ReplaceLinkExecutionError::PreconditionNoLongerHolds { message } => message@,
            ReplaceLinkExecutionError::Other { message } => message@,
        }
    }

    /// What the executor says of the error.
    pub fn to_text(&self) -> (text: String)
        ensures
            text@ == self.message(),
    {
        match self {
            ReplaceLinkExecutionError::MutationAttempt { message, .. } => copy_of(message.as_str()),
            ReplaceLinkExecutionError::Aftermath { message, .. } => copy_of(message.as_str()),
            ReplaceLinkExecutionError::PreconditionNoLongerHolds { message } => copy_of(message.as_str()),
            ReplaceLinkExecutionError::Other { message } => copy_of(message.as_str()),
        }
    }
}

/// Why a link was not relocated.
#[derive(Debug, PartialEq, Eq)]
pub enum RelocateLinkExecutionError {
    PreconditionNoLongerHolds { message: String },
    Aftermath { old_observation: TargetObservation, new_observation: TargetObservation, message: String },
    Other { message: String },
}

impl RelocateLinkExecutionError {
    /// What the executor says of the error.
    pub open spec fn message(self) -> Seq<char> {
        match self {
            RelocateLinkExecutionError::PreconditionNoLongerHolds { message } => message@,
            RelocateLinkExecutionError::Aftermath { message, .. } => message@,
            RelocateLinkExecutionError::Other { message } => message@,
        }
    }

    /// What the executor says of the error.
    pub fn to_text(&self) -> (text: String)
        ensures
            text@ == self.message(),
    {
        match self {
            RelocateLinkExecutionError::PreconditionNoLongerHolds { message } => copy_of(message.as_str()),
            RelocateLinkExecutionError::Aftermath { message, .. } => copy_of(message.as_str()),
            RelocateLinkExecutionError::Other { message } => copy_of(message.as_str()),
        }
    }
}

/// Why a link was not removed.
#[derive(Debug, PartialEq, Eq)]
pub enum RemoveLinkExecutionError {
    RemoveAttemptFailed { aftermath: TargetObservation, message: String },
    PostconditionNotMet { observation: TargetObservation, message: String },
    PreconditionNoLongerHolds { message: String },
    UnsupportedAction { message: String },
    InvalidRemoveConditions { message: String },
    TargetInspection { message: String },
    PlatformCapability { message: String },
    RemoveAftermathUnproven { message: String },
    PostconditionInspection { message: String },
}

impl RemoveLinkExecutionError {
    /// What the executor says of the error.
    pub open spec fn message(self) -> Seq<char> {
        match self {
            RemoveLinkExecutionError::RemoveAttemptFailed { message, .. } => message@,
            RemoveLinkExecutionError::PostconditionNotMet { message, .. } => message@,
            RemoveLinkExecutionError::PreconditionNoLongerHolds { message } => message@,
            RemoveLinkExecutionError::UnsupportedAction { message } => message@,
            RemoveLinkExecutionError::InvalidRemoveConditions { message } => message@,
            RemoveLinkExecutionError::TargetInspection { message } => message@,
            RemoveLinkExecutionError::PlatformCapability { message } => message@,
            RemoveLinkExecutionError::RemoveAftermathUnproven { message } => message@,
            RemoveLinkExecutionError::PostconditionInspection { message } => message@,
        }
    }

    /// What the executor says of the error.
    pub fn to_text(&self) -> (text: String)
        ensures
            text@ == self.message(),
    {
        match self {
            RemoveLinkExecutionError::RemoveAttemptFailed { message, .. } => copy_of(message.as_str()),
            RemoveLinkExecutionError::PostconditionNotMet { message, .. } => copy_of(message.as_str()),
            RemoveLinkExecutionError::PreconditionNoLongerHolds { message } => copy_of(message.as_str()),
            RemoveLinkExecutionError::UnsupportedAction { message } => copy_of(message.as_str()),
            RemoveLinkExecutionError::InvalidRemoveConditions { message } => copy_of(message.as_str()),
            RemoveLinkExecutionError::TargetInspection { message } => copy_of(message.as_str()),
            RemoveLinkExecutionError::PlatformCapability { message } => copy_of(message.as_str()),
            RemoveLinkExecutionError::RemoveAftermathUnproven { message } => copy_of(message.as_str()),
            RemoveLinkExecutionError::PostconditionInspection { message } => copy_of(message.as_str()),
        }
    }
}

/// Why a missing link was not forgotten.
#[derive(Debug, PartialEq, Eq)]
pub enum ForgetMissingExecutionError {
    PostconditionNotMet { message: String },
    UnsupportedAction { message: String },
    InvalidForgetMissingConditions { message: String },
    TargetInspection { message: String },
}

impl ForgetMissingExecutionError {
    /// What the executor says of the error.
    pub open spec fn message(self) -> Seq<char> {
        match self {
            ForgetMissingExecutionError::PostconditionNotMet { message } => message@,
            ForgetMissingExecutionError::UnsupportedAction { message } => message@,
            ForgetMissingExecutionError::InvalidForgetMissingConditions { message } => message@,
            ForgetMissingExecutionError::TargetInspection { message } => message@,
        }
    }

    /// What the executor says of the error.
    pub fn to_text(&self) -> (text: String)
        ensures
            text@ == self.message(),
    {
        match self {
            ForgetMissingExecutionError::PostconditionNotMet { message } => copy_of(message.as_str()),
            ForgetMissingExecutionError::UnsupportedAction { message } => copy_of(message.as_str()),
            ForgetMissingExecutionError::InvalidForgetMissingConditions { message } => copy_of(message.as_str()),
            ForgetMissingExecutionError::TargetInspection { message } => copy_of(message.as_str()),
        }
    }
}

/// Why an executor of copies stopped, before or during its work.
#[derive(Debug, PartialEq, Eq)]
pub struct CopyError {
    pub message: String,
}

/// The name of a kind of action.
pub open spec fn kind_name(kind: ActionKind) -> Seq<char> {
    match kind {
        ActionKind::CreateLink => "CreateLink"@,
        ActionKind::ReplaceLink => "ReplaceLink"@,
        ActionKind::RelocateLink => "RelocateLink"@,
        ActionKind::ReplaceOwnership => "ReplaceOwnership"@,
        ActionKind::RemoveLink => "RemoveLink"@,
        ActionKind::ForgetMissing => "ForgetMissing"@,
        ActionKind::CreateCopy => "CreateCopy"@,
        ActionKind::ReplaceCopy => "ReplaceCopy"@,
        ActionKind::RelocateCopy => "RelocateCopy"@,
        ActionKind::RemoveCopy => "RemoveCopy"@,
        ActionKind::ReplaceEffect => "ReplaceEffect"@,
        ActionKind::Noop => "Noop"@,
    }
}

/// The name of a kind of action.
pub fn to_kind_name(kind: ActionKind) -> (name: String)
    ensures
        name@ == kind_name(kind),
{
    match kind {
        ActionKind::CreateLink => copy_of("CreateLink"),
        ActionKind::ReplaceLink => copy_of("ReplaceLink"),
        ActionKind::RelocateLink => copy_of("RelocateLink"),
        ActionKind::ReplaceOwnership => copy_of("ReplaceOwnership"),
        ActionKind::RemoveLink => copy_of("RemoveLink"),
        ActionKind::ForgetMissing => copy_of("ForgetMissing"),
        ActionKind::CreateCopy => copy_of("CreateCopy"),
        ActionKind::ReplaceCopy => copy_of("ReplaceCopy"),
        ActionKind::RelocateCopy => copy_of("RelocateCopy"),
        ActionKind::RemoveCopy => copy_of("RemoveCopy"),
        ActionKind::ReplaceEffect => copy_of("ReplaceEffect"),
        ActionKind::Noop => copy_of("Noop"),
    }
}

/// The names of a list of kinds, in brackets.
pub open spec fn kind_list(kinds: Seq<ActionKind>) -> Seq<char> {
    "["@ + join(Seq::new(kinds.len(), |i: int| kind_name(kinds[i])), ", "@) + "]"@
}

fn to_kind_list(kinds: &Vec<ActionKind>) -> (list: String)
    ensures
        list@ == kind_list(kinds@),
{
    let mut names: Vec<String> = Vec::new();
    let mut i: usize = 0;
    while i < kinds.len()
        invariant
            i <= kinds@.len(),
            names@.len() == i,
            forall|k: int| 0 <= k < i ==> (#[trigger] names@[k])@ == kind_name(kinds@[k]),
        decreases kinds.len() - i,
    {
        names.push(to_kind_name(kinds[i]));
        i += 1;
    }
    assert(texts(names@) =~= Seq::new(kinds@.len(), |i: int| kind_name(kinds@[i])));
    copy_of("[").concat(join_texts(&names, ", ").as_str()).concat("]")
}

/// Why a stale link was not dealt with.
#[derive(Debug, PartialEq, Eq)]
pub enum StaleLinkExecutionError {
    Remove(RemoveLinkExecutionError),
    ForgetMissing(ForgetMissingExecutionError),
    UnsupportedAction { kind: ActionKind },
}

impl StaleLinkExecutionError {
    /// What the error says.
    pub open spec fn message(self) -> Seq<char> {
        match self {
            StaleLinkExecutionError::Remove(error) => error.message(),
            StaleLinkExecutionError::ForgetMissing(error) => error.message(),
            StaleLinkExecutionError::UnsupportedAction { kind } =>
                "stale-resource executor cannot execute action kind "@ + kind_name(kind),
        }
    }

    /// What the error says.
    pub fn to_text(&self) -> (text: String)
        ensures
            text@ == self.message(),
    {
        match self {
            StaleLinkExecutionError::Remove(error) => error.to_text(),
            StaleLinkExecutionError::ForgetMissing(error) => error.to_text(),
            StaleLinkExecutionError::UnsupportedAction { kind } => copy_of(
                "stale-resource executor cannot execute action kind ",
            ).concat(to_kind_name(*kind).as_str()),
        }
    }
}

/// Why the execution of an action stopped.
#[derive(Debug, PartialEq, Eq)]
pub enum ResourceExecutionError {
    CreateLink(CreateLinkExecutionError),
    ReplaceLink(ReplaceLinkExecutionError),
    RelocateLink(RelocateLinkExecutionError),
    StaleLink(StaleLinkExecutionError),
    CreateCopy(CopyError),
    ReplaceCopy(CopyError),
    RelocateCopy(CopyError),
    RemoveCopy(CopyError),
    CopyStateOnly(CopyError),
    LinkToCopyHandoff(CopyError),
    CopyToLinkHandoff(CopyError),
    InvalidEffectHandoff,
}

impl ResourceExecutionError {
    /// What the error says.
    pub open spec fn message(self) -> Seq<char> {
        match self {
            ResourceExecutionError::CreateLink(error) => error.message(),
            ResourceExecutionError::ReplaceLink(error) => error.message(),
            ResourceExecutionError::RelocateLink(error) => error.message(),
            ResourceExecutionError::StaleLink(error) => error.message(),
            ResourceExecutionError::CreateCopy(error) => error.message@,
            ResourceExecutionError::ReplaceCopy(error) => error.message@,
            ResourceExecutionError::RelocateCopy(error) => error.message@,
            ResourceExecutionError::RemoveCopy(error) => error.message@,
            ResourceExecutionError::CopyStateOnly(error) => error.message@,
            ResourceExecutionError::LinkToCopyHandoff(error) => error.message@,
            ResourceExecutionError::CopyToLinkHandoff(error) => error.message@,
            ResourceExecutionError::InvalidEffectHandoff =>
                "effect handoff does not have a supported link/copy pair"@,
        }
    }

    /// What the error says.
    pub fn to_text(&self) -> (text: String)
        ensures
            text@ == self.message(),
    {
        match self {
            ResourceExecutionError::CreateLink(error) => error.to_text(),
            ResourceExecutionError::ReplaceLink(error) => error.to_text(),
            ResourceExecutionError::RelocateLink(error) => error.to_text(),
            ResourceExecutionError::StaleLink(error) => error.to_text(),
            ResourceExecutionError::CreateCopy(error) => copy_of(error.message.as_str()),
            ResourceExecutionError::ReplaceCopy(error) => copy_of(error.message.as_str()),
            ResourceExecutionError::RelocateCopy(error) => copy_of(error.message.as_str()),
            ResourceExecutionError::RemoveCopy(error) => copy_of(error.message.as_str()),
            ResourceExecutionError::CopyStateOnly(error) => copy_of(error.message.as_str()),
            ResourceExecutionError::LinkToCopyHandoff(error) => copy_of(error.message.as_str()),
            ResourceExecutionError::CopyToLinkHandoff(error) => copy_of(error.message.as_str()),
            ResourceExecutionError::InvalidEffectHandoff => copy_of(
                "effect handoff does not have a supported link/copy pair",
            ),
        }
    }
}

/// Why an apply stopped.
#[derive(Debug, PartialEq, Eq)]
pub enum ApplyError {
    State(StateRepositoryError),
    StatePreflight(StateRepositoryError),
    RecoveryRequired,
    InitialInspection { message: String },
    MissingVerifiedSource { resource_id: FullyQualifiedResourceId },
    SliceFourRequiresSingleCreateAction { action_kinds: Vec<ActionKind> },
    Preflight(CreateLinkExecutionError),
    CopyPreflight(CopyError),
    ResourceExecution(ResourceExecutionError),
    SliceSixRequiresSingleReplaceAction { action_kinds: Vec<ActionKind> },
    ReplacePreflight(ReplaceLinkExecutionError),
    SliceSixRequiresSingleReplaceOwnershipAction { action_kinds: Vec<ActionKind> },
    SliceSixRequiresSingleRelocateAction { action_kinds: Vec<ActionKind> },
    RelocatePreflight(RelocateLinkExecutionError),
    SliceFiveRequiresSingleStaleAction { action_kinds: Vec<ActionKind> },
    StalePreflight(StaleLinkExecutionError),
    DesiredHash { message: String },
}

impl ApplyError {
    /// What the error says.
    pub open spec fn message(self) -> Seq<char> {
        match self {
            ApplyError::State(error) => error.message(),
            ApplyError::StatePreflight(error) => error.message(),
            ApplyError::Preflight(error) => error.message(),
            ApplyError::ResourceExecution(error) => error.message(),
            ApplyError::ReplacePreflight(error) => error.message(),
            ApplyError::RelocatePreflight(error) => error.message(),
            ApplyError::StalePreflight(error) => error.message(),
            ApplyError::CopyPreflight(error) => error.message@,
            ApplyError::InitialInspection { message } => message@,
            ApplyError::DesiredHash { message } => message@,
            ApplyError::RecoveryRequired =>
                "an active operation must be recovered before a fresh plan can be created"@,
            ApplyError::MissingVerifiedSource { resource_id } =>
                "no verified source is available for "@ + resource_id@,
            ApplyError::SliceFourRequiresSingleCreateAction { action_kinds } =>
                "Slice 4 apply supports exactly one create_link action, not "@ + kind_list(
                action_kinds@,
            ),
            ApplyError::SliceSixRequiresSingleReplaceAction { action_kinds } =>
                "Slice 6 apply supports exactly one replace_link action, not "@ + kind_list(
                action_kinds@,
            ),
            ApplyError::SliceSixRequiresSingleReplaceOwnershipAction { action_kinds } =>
                "Slice 6 apply supports exactly one replace_ownership action, not "@ + kind_list(
                action_kinds@,
            ),
            ApplyError::SliceSixRequiresSingleRelocateAction { action_kinds } =>
                "Slice 6 apply supports exactly one relocate_link action, not "@ + kind_list(
                action_kinds@,
            ),
            ApplyError::SliceFiveRequiresSingleStaleAction { action_kinds } =>
                "Slice 5 apply supports exactly one remove_link or forget_missing action, not "@ + kind_list(
                action_kinds@,
            ),
        }
    }

    /// What the error says.
    pub fn to_text(&self) -> (text: String)
        ensures
            text@ == self.message(),
    {
        match self {
            ApplyError::State(error) => error.to_text(),
            ApplyError::StatePreflight(error) => error.to_text(),
            ApplyError::Preflight(error) => error.to_text(),
            ApplyError::ResourceExecution(error) => error.to_text(),
            ApplyError::ReplacePreflight(error) => error.to_text(),
            ApplyError::RelocatePreflight(error) => error.to_text(),
            ApplyError::StalePreflight(error) => error.to_text(),
            ApplyError::CopyPreflight(error) => copy_of(error.message.as_str()),
            ApplyError::InitialInspection { message } => copy_of(message.as_str()),
            ApplyError::DesiredHash { message } => copy_of(message.as_str()),
            ApplyError::RecoveryRequired => copy_of(
                "an active operation must be recovered before a fresh plan can be created",
            ),
            ApplyError::MissingVerifiedSource { resource_id } => copy_of(
                "no verified source is available for ",
            ).concat(resource_id.as_str()),
            ApplyError::SliceFourRequiresSingleCreateAction { action_kinds } => copy_of(
                "Slice 4 apply supports exactly one create_link action, not ",
            ).concat(to_kind_list(action_kinds).as_str()),
            ApplyError::SliceSixRequiresSingleReplaceAction { action_kinds } => copy_of(
                "Slice 6 apply supports exactly one replace_link action, not ",
            ).concat(to_kind_list(action_kinds).as_str()),
            ApplyError::SliceSixRequiresSingleReplaceOwnershipAction { action_kinds } => copy_of(
                "Slice 6 apply supports exactly one replace_ownership action, not ",
            ).concat(to_kind_list(action_kinds).as_str()),
            ApplyError::SliceSixRequiresSingleRelocateAction { action_kinds } => copy_of(
                "Slice 6 apply supports exactly one relocate_link action, not ",
            ).concat(to_kind_list(action_kinds).as_str()),
            ApplyError::SliceFiveRequiresSingleStaleAction { action_kinds } => copy_of(
                "Slice 5 apply supports exactly one remove_link or forget_missing action, not ",
            ).concat(to_kind_list(action_kinds).as_str()),
        }
    }
}

/// Every kind of action has a name of its own.
pub proof fn kind_is_told_by_its_name(kind: ActionKind, name: String)
    requires
        call_ensures(to_kind_name, (kind,), name),
    ensures
        name@ == "CreateLink"@ <==> kind is CreateLink,
        name@ == "ReplaceLink"@ <==> kind is ReplaceLink,
        name@ == "RelocateLink"@ <==> kind is RelocateLink,
        name@ == "ReplaceOwnership"@ <==> kind is ReplaceOwnership,
        name@ == "RemoveLink"@ <==> kind is RemoveLink,
        name@ == "ForgetMissing"@ <==> kind is ForgetMissing,
        name@ == "CreateCopy"@ <==> kind is CreateCopy,
        name@ == "ReplaceCopy"@ <==> kind is ReplaceCopy,
        name@ == "RelocateCopy"@ <==> kind is RelocateCopy,
        name@ == "RemoveCopy"@ <==> kind is RemoveCopy,
        name@ == "ReplaceEffect"@ <==> kind is ReplaceEffect,
        name@ == "Noop"@ <==> kind is Noop,
{
    reveal_strlit("CreateLink");
    reveal_strlit("ReplaceLink");
    reveal_strlit("RelocateLink");
    reveal_strlit("ReplaceOwnership");
    reveal_strlit("RemoveLink");
    reveal_strlit("ForgetMissing");
    reveal_strlit("CreateCopy");
    reveal_strlit("ReplaceCopy");
    reveal_strlit("RelocateCopy");
    reveal_strlit("RemoveCopy");
    reveal_strlit("ReplaceEffect");
    reveal_strlit("Noop");
    // The letters by which the names are told apart.
    let letters = (name@.len(), name@[0], name@[6], name@[7], name@[8]);
}

/// What an apply is stopped by says which plan was expected and which one there was, which source is
/// not there, or what was said by whatever stopped it.
pub proof fn stopped_apply_says_why(error: ApplyError, text: String)
    requires
        call_ensures(ApplyError::to_text, (&error,), text),
    ensures
        (error matches ApplyError::SliceFourRequiresSingleCreateAction { action_kinds } ==> opens(
            text@,
            "Slice 4 apply supports exactly one create_link action"@,
        ) && closes(text@, ", not "@ + kind_list(action_kinds@))),
        (error matches ApplyError::SliceFiveRequiresSingleStaleAction { action_kinds } ==> opens(
            text@,
            "Slice 5 apply supports exactly one remove_link or forget_missing action"@,
        ) && closes(text@, ", not "@ + kind_list(action_kinds@))),
        (error matches ApplyError::SliceSixRequiresSingleReplaceAction { action_kinds } ==> opens(
            text@,
            "Slice 6 apply supports exactly one replace_link action"@,
        ) && closes(text@, ", not "@ + kind_list(action_kinds@))),
        (error matches ApplyError::SliceSixRequiresSingleReplaceOwnershipAction { action_kinds }
            ==> opens(text@, "Slice 6 apply supports exactly one replace_ownership action"@)
            && closes(text@, ", not "@ + kind_list(action_kinds@))),
        (error matches ApplyError::SliceSixRequiresSingleRelocateAction { action_kinds } ==> opens(
            text@,
            "Slice 6 apply supports exactly one relocate_link action"@,
        ) && closes(text@, ", not "@ + kind_list(action_kinds@))),
        (error matches ApplyError::MissingVerifiedSource { resource_id } ==> text@
            == "no verified source is available for "@ + resource_id@),
        error is RecoveryRequired ==> opens(text@, "an active operation must be recovered"@),
        (error matches ApplyError::InitialInspection { message } ==> text@ == message@),
        (error matches ApplyError::DesiredHash { message } ==> text@ == message@),
        (error matches ApplyError::CopyPreflight(inner) ==> text@ == inner.message@),
        (error matches ApplyError::State(StateRepositoryError::Commit { message, .. }) ==> text@
            == message@),
        (error matches ApplyError::State(StateRepositoryError::Other { message }) ==> text@
            == message@),
        (error matches ApplyError::StatePreflight(StateRepositoryError::Commit { message, .. })
            ==> text@ == message@),
        (error matches ApplyError::StatePreflight(StateRepositoryError::Other { message }) ==> text@
            == message@),
        (error matches ApplyError::ResourceExecution(ResourceExecutionError::InvalidEffectHandoff)
            ==> opens(text@, "effect handoff "@)),
        (error matches ApplyError::StalePreflight(
            StaleLinkExecutionError::UnsupportedAction { kind },
        ) ==> closes(text@, " action kind "@ + kind_name(kind))),
{
    reveal_strlit("Slice 4 apply supports exactly one create_link action, not ");
    reveal_strlit("Slice 4 apply supports exactly one create_link action");
    reveal_strlit("Slice 5 apply supports exactly one remove_link or forget_missing action, not ");
    reveal_strlit("Slice 5 apply supports exactly one remove_link or forget_missing action");
    reveal_strlit("Slice 6 apply supports exactly one replace_link action, not ");
    reveal_strlit("Slice 6 apply supports exactly one replace_link action");
    reveal_strlit("Slice 6 apply supports exactly one replace_ownership action, not ");
    reveal_strlit("Slice 6 apply supports exactly one replace_ownership action");
    reveal_strlit("Slice 6 apply supports exactly one relocate_link action, not ");
    reveal_strlit("Slice 6 apply supports exactly one relocate_link action");
    reveal_strlit(", not ");
    reveal_strlit("an active operation must be recovered before a fresh plan can be created");
    reveal_strlit("an active operation must be recovered");
    reveal_strlit("effect handoff does not have a supported link/copy pair");
    reveal_strlit("effect handoff ");
    reveal_strlit("stale-resource executor cannot execute action kind ");
    reveal_strlit(" action kind ");
}

/// What an executor says of its error is what the error says, whichever action it stopped.
pub proof fn error_of_an_executor_says_what_the_executor_said(
    error: ResourceExecutionError,
    text: String,
    wrapped: String,
)
    requires
        call_ensures(ResourceExecutionError::to_text, (&error,), text),
        call_ensures(
            ApplyError::to_text,
            (&ApplyError::ResourceExecution(error),),
            wrapped,
        ),
    ensures
        wrapped@ == text@,
        match error {
            ResourceExecutionError::CreateLink(inner) => text@ == inner.message(),
            ResourceExecutionError::ReplaceLink(inner) => text@ == inner.message(),
            ResourceExecutionError::RelocateLink(inner) => text@ == inner.message(),
            ResourceExecutionError::StaleLink(inner) => text@ == inner.message(),
            ResourceExecutionError::CreateCopy(inner) => text@ == inner.message@,
            ResourceExecutionError::ReplaceCopy(inner) => text@ == inner.message@,
            ResourceExecutionError::RelocateCopy(inner) => text@ == inner.message@,
            ResourceExecutionError::RemoveCopy(inner) => text@ == inner.message@,
            ResourceExecutionError::CopyStateOnly(inner) => text@ == inner.message@,
            ResourceExecutionError::LinkToCopyHandoff(inner) => text@ == inner.message@,
            ResourceExecutionError::CopyToLinkHandoff(inner) => text@ == inner.message@,
            ResourceExecutionError::InvalidEffectHandoff => text@
                == "effect handoff does not have a supported link/copy pair"@,
        },
{
}

/// What is said of a stale link is what was said where it was removed or forgotten, and of an action
/// that is neither its kind is named.
pub proof fn error_on_a_stale_link_says_what_stopped_it(
    error: StaleLinkExecutionError,
    text: String,
    removed: RemoveLinkExecutionError,
    of_removal: String,
    forgotten: ForgetMissingExecutionError,
    of_forgetting: String,
)
    requires
        call_ensures(StaleLinkExecutionError::to_text, (&error,), text),
        call_ensures(RemoveLinkExecutionError::to_text, (&removed,), of_removal),
        call_ensures(ForgetMissingExecutionError::to_text, (&forgotten,), of_forgetting),
    ensures
        error == StaleLinkExecutionError::Remove(removed) ==> text@ == of_removal@,
        error == StaleLinkExecutionError::ForgetMissing(forgotten) ==> text@ == of_forgetting@,
        (error matches StaleLinkExecutionError::UnsupportedAction { kind } ==> text@
            == "stale-resource executor cannot execute action kind "@ + kind_name(kind)),
        (removed matches RemoveLinkExecutionError::RemoveAttemptFailed { message, .. } ==> of_removal@
            == message@),
        (removed matches RemoveLinkExecutionError::PostconditionNotMet { message, .. } ==> of_removal@
            == message@),
        (forgotten matches ForgetMissingExecutionError::PostconditionNotMet { message } ==>
            of_forgetting@ == message@),
{
}

/// Kinds are listed between brackets, in order, with a comma and a space between each two.
pub proof fn kinds_are_listed_between_brackets(kinds: Seq<ActionKind>, kind: ActionKind) -> (inner:
    Seq<char>)
    ensures
        kind_list(kinds) == seq!['['] + inner + seq![']'],
        kinds.len() == 0 ==> inner.len() == 0,
        kind_list(kinds.push(kind)) == if kinds.len() == 0 {
            seq!['['] + kind_name(kind) + seq![']']
        } else {
            seq!['['] + inner + seq![',', ' '] + kind_name(kind) + seq![']']
        },
{
    reveal_strlit("[");
    reveal_strlit("]");
    reveal_strlit(", ");
    assert("["@ =~= seq!['[']);
    assert("]"@ =~= seq![']']);
    assert(", "@ =~= seq![',', ' ']);
    let names = Seq::new(kinds.len(), |i: int| kind_name(kinds[i]));
    let more = Seq::new(kinds.push(kind).len(), |i: int| kind_name(kinds.push(kind)[i]));
    assert(more.drop_last() =~= names);
    assert(more.last() == kind_name(kind));
    let inner = join(names, ", "@);
    assert(kind_list(kinds) =~= seq!['['] + inner + seq![']']);
    if kinds.len() > 0 {
        assert(join(more, ", "@) == inner + ", "@ + kind_name(kind));
        assert(kind_list(kinds.push(kind)) =~= seq!['['] + inner + seq![',', ' '] + kind_name(kind)
            + seq![']']);
    } else {
        assert(join(more, ", "@) == kind_name(kind));
    }
    inner
}

} // verus!
