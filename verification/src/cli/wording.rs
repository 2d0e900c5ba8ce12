//! What the written words tell: no two things that differ are written alike.

use vstd::prelude::*;
use vstd::string::*;
use crate::application::queries::{
    ConfigurationValue, ConfigurationValueReport, PlanReport, QueryError, ResolverError,
    StatusActual, StatusRelationship, StatusResource, StatusUnavailable, ValidatedProfile,
    ValidationReport,
};
use crate::cli::render::{
    action_name, action_text, actual_line, condition_paths, config_get, copy_observation_fields,
    diagnostic_line, executable_text, expected_category, id_texts, invalid_lines, link_observation,
    observation, plan, planned_line, planned_lines, query_error, reason, relation_line,
    relation_of, render_known_resource, render_resolved_resource, resolver_exit_code,
    unavailable_status_category, unfinished_lines, unfinished_text, unreadable, valid_lines,
    validation, value_line, Rendered,
};
use crate::domain::actual::{ActualResource, CopyTargetObservation, TargetObservation};
use crate::domain::desired::ResolvedResource;
use crate::domain::diagnostic::Diagnostic;
use crate::domain::effects::EffectView;
use crate::domain::ids::FullyQualifiedResourceId;
use crate::domain::known::KnownResource;
use crate::domain::paths::{same_path, ResolvedPath};
use crate::domain::plan::{ActionKind, ActionReason, ActionView};
use crate::state::operation::{ActionStatus, EntryView};
use crate::text::{closes, join, lemma_join_two, lemma_lined_add, lined, opens};

verus! {

proof fn lemma_tail(start: Seq<char>, left: Seq<char>, right: Seq<char>)
    requires
        start + left == start + right,
    ensures
        left == right,
{
    assert(left =~= (start + left).skip(start.len() as int));
    assert(right =~= (start + right).skip(start.len() as int));
}

proof fn lemma_middle(start: Seq<char>, left: Seq<char>, right: Seq<char>, ending: Seq<char>)
    requires
        start + left + ending == start + right + ending,
    ensures
        left == right,
{
    assert((start + left + ending).len() == start.len() + left.len() + ending.len());
    assert((start + right + ending).len() == start.len() + right.len() + ending.len());
    assert(left =~= (start + left + ending).subrange(
        start.len() as int,
        (start.len() + left.len()) as int,
    ));
    assert(right =~= (start + right + ending).subrange(
        start.len() as int,
        (start.len() + right.len()) as int,
    ));
}

/// What is written of a link tells what was observed: each observation has a word of its own that
/// the text starts with, so that nothing else is ever written as an expected link.
pub proof fn link_observation_is_told_by_its_word(observation: TargetObservation, text: String)
    requires
        call_ensures(link_observation, (&observation,), text),
    ensures
        opens(text@, "expected_link"@) <==> observation is ExpectedLink,
        opens(text@, "matching_unmanaged_link"@) <==> observation is MatchingUnmanagedLink,
        opens(text@, "other_link"@) <==> observation is OtherLink,
        opens(text@, "other_entry"@) <==> observation is OtherEntry,
        opens(text@, "unsafe_path"@) <==> observation is UnsafePath,
        opens(text@, "missing"@) <==> observation is Missing,
        observation is Missing ==> text@ == "missing"@,
        (observation matches TargetObservation::ExpectedLink { link_target } ==> closes(
            text@,
            " -> "@ + link_target@,
        )),
        (observation matches TargetObservation::MatchingUnmanagedLink { link_target } ==> closes(
            text@,
            " -> "@ + link_target@,
        )),
        (observation matches TargetObservation::OtherLink { link_target } ==> closes(
            text@,
            " -> "@ + link_target@,
        )),
        (observation matches TargetObservation::OtherEntry { kind } ==> closes(
            text@,
            " ("@ + kind@ + ")"@,
        )),
        (observation matches TargetObservation::UnsafePath { parent_safety } ==> closes(
            text@,
            " ("@ + parent_safety@ + ")"@,
        )),
{
    reveal_strlit("missing");
    reveal_strlit("expected_link");
    reveal_strlit("expected_link -> ");
    reveal_strlit("matching_unmanaged_link");
    reveal_strlit("matching_unmanaged_link -> ");
    reveal_strlit("other_link");
    reveal_strlit("other_link -> ");
    reveal_strlit("other_entry");
    reveal_strlit("other_entry (");
    reveal_strlit("unsafe_path");
    reveal_strlit("unsafe_path (");
    reveal_strlit(" -> ");
    reveal_strlit(" (");
    reveal_strlit(")");
    // The letters by which the words are told apart.
    let letters = (text@[0], text@[1], text@[6]);
}

/// Observations of a link that differ are written differently.
pub proof fn link_observations_are_written_apart(
    left: TargetObservation,
    right: TargetObservation,
    text: String,
    other: String,
)
    requires
        call_ensures(link_observation, (&left,), text),
        call_ensures(link_observation, (&right,), other),
        text@ == other@,
    ensures
        match (left, right) {
            (TargetObservation::Missing, TargetObservation::Missing) => true,
            (
                TargetObservation::ExpectedLink { link_target },
                TargetObservation::ExpectedLink { link_target: held },
            ) => link_target@ == held@,
            (
                TargetObservation::MatchingUnmanagedLink { link_target },
                TargetObservation::MatchingUnmanagedLink { link_target: held },
            ) => link_target@ == held@,
            (
                TargetObservation::OtherLink { link_target },
                TargetObservation::OtherLink { link_target: held },
            ) => link_target@ == held@,
            (
                TargetObservation::OtherEntry { kind },
                TargetObservation::OtherEntry { kind: other },
            ) => kind@ == other@,
            (
                TargetObservation::UnsafePath { parent_safety },
                TargetObservation::UnsafePath { parent_safety: other },
            ) => parent_safety@ == other@,
            _ => false,
        },
{
    link_observation_is_told_by_its_word(left, text);
    link_observation_is_told_by_its_word(right, other);
    match (left, right) {
        (
            TargetObservation::ExpectedLink { link_target },
            TargetObservation::ExpectedLink { link_target: held },
        ) => lemma_tail("expected_link -> "@, link_target@, held@),
        (
            TargetObservation::MatchingUnmanagedLink { link_target },
            TargetObservation::MatchingUnmanagedLink { link_target: held },
        ) => lemma_tail("matching_unmanaged_link -> "@, link_target@, held@),
        (
            TargetObservation::OtherLink { link_target },
            TargetObservation::OtherLink { link_target: held },
        ) => lemma_tail("other_link -> "@, link_target@, held@),
        (
            TargetObservation::OtherEntry { kind },
            TargetObservation::OtherEntry { kind: other },
        ) => lemma_middle("other_entry ("@, kind@, other@, ")"@),
        (
            TargetObservation::UnsafePath { parent_safety },
            TargetObservation::UnsafePath { parent_safety: other },
        ) => lemma_middle("unsafe_path ("@, parent_safety@, other@, ")"@),
        _ => {},
    }
}

/// What is written of a copy tells what was observed, and so does what is written of any resource:
/// only an expected link is written as one, and only an expected copy as one.
pub proof fn observation_is_told_by_its_word(actual: ActualResource, text: String)
    requires
        call_ensures(observation, (&actual,), text),
    ensures
        opens(text@, "expected_link"@) <==> (actual matches ActualResource::FileLink(link)
            && link.observation is ExpectedLink),
        opens(text@, "matching_unmanaged_link"@) <==> (actual matches ActualResource::FileLink(link)
            && link.observation is MatchingUnmanagedLink),
        opens(text@, "other_link"@) <==> (actual matches ActualResource::FileLink(link)
            && link.observation is OtherLink),
        opens(text@, "expected_copy"@) <==> (actual matches ActualResource::FileCopy(copy)
            && copy.observation is ExpectedCopy),
        opens(text@, "other_regular_file"@) <==> (actual matches ActualResource::FileCopy(copy)
            && copy.observation is OtherRegularFile),
        opens(text@, "other_entry"@) <==> match actual {
            ActualResource::FileLink(link) => link.observation is OtherEntry,
            ActualResource::FileCopy(copy) => copy.observation is OtherEntry,
        },
        opens(text@, "unsafe_path"@) <==> match actual {
            ActualResource::FileLink(link) => link.observation is UnsafePath,
            ActualResource::FileCopy(copy) => copy.observation is UnsafePath,
        },
        text@ == "missing"@ <==> match actual {
            ActualResource::FileLink(link) => link.observation is Missing,
            ActualResource::FileCopy(copy) => copy.observation is Missing,
        },
        (actual matches ActualResource::FileCopy(copy) ==> match copy.observation {
            CopyTargetObservation::Missing => true,
            CopyTargetObservation::ExpectedCopy { content_fingerprint } => closes(
                text@,
                " ("@ + content_fingerprint@ + ")"@,
            ),
            CopyTargetObservation::OtherRegularFile { content_fingerprint } => closes(
                text@,
                " ("@ + content_fingerprint@ + ")"@,
            ),
            CopyTargetObservation::OtherEntry { kind } => closes(text@, " ("@ + kind@ + ")"@),
            CopyTargetObservation::UnsafePath { parent_safety } => closes(
                text@,
                " ("@ + parent_safety@ + ")"@,
            ),
        }),
{
    reveal_strlit("missing");
    reveal_strlit("expected_link");
    reveal_strlit("expected_link -> ");
    reveal_strlit("matching_unmanaged_link");
    reveal_strlit("matching_unmanaged_link -> ");
    reveal_strlit("other_link");
    reveal_strlit("other_link -> ");
    reveal_strlit("other_entry");
    reveal_strlit("other_entry (");
    reveal_strlit("unsafe_path");
    reveal_strlit("unsafe_path (");
    reveal_strlit("expected_copy");
    reveal_strlit("expected_copy (");
    reveal_strlit("other_regular_file");
    reveal_strlit("other_regular_file (");
    reveal_strlit(" (");
    reveal_strlit(")");
    // The letters by which the words are told apart.
    let letters = (text@[0], text@[1], text@[6], text@[9]);
}

/// A resource is said to be as expected exactly if an expected link or an expected copy was
/// observed, and the word tells which.
pub proof fn only_an_expected_effect_is_said_to_be_expected(
    actual: ActualResource,
    category: Option<&'static str>,
)
    requires
        call_ensures(expected_category, (&actual,), category),
    ensures
        (category matches Some(word) ==> word@ == "expected_link"@ || word@ == "expected_copy"@),
        (category matches Some(word) && word@ == "expected_link"@) <==> (actual matches
            ActualResource::FileLink(link) && link.observation is ExpectedLink),
        (category matches Some(word) && word@ == "expected_copy"@) <==> (actual matches
            ActualResource::FileCopy(copy) && copy.observation is ExpectedCopy),
{
    reveal_strlit("expected_link");
    reveal_strlit("expected_copy");
    assert("expected_link"@[9] != "expected_copy"@[9]);
}

/// Whether the expected effect was observed of a resource.
pub open spec fn is_as_expected(resource: StatusResource) -> bool {
    match resource.actual {
        StatusActual::Available(ActualResource::FileLink(link)) => link.observation is ExpectedLink,
        StatusActual::Available(ActualResource::FileCopy(copy)) => copy.observation is ExpectedCopy,
        StatusActual::Unavailable(_) => false,
    }
}

/// Whether a resource is desired as it is on record: the same sort of effect, with the same source,
/// target and content.
pub open spec fn is_desired_as_recorded(resource: StatusResource) -> bool {
    match (resource.desired, resource.known) {
        (Some(desired), Some(known)) => match (desired@, known@) {
            (EffectView::Link(wanted), EffectView::Link(recorded)) => {
                &&& same_path(wanted.source_path, recorded.source_path)
                &&& same_path(wanted.target_path, recorded.target_path)
                &&& same_path(wanted.link_target, recorded.link_target)
            },
            (EffectView::Copy(wanted), EffectView::Copy(recorded)) => {
                &&& same_path(wanted.source_path, recorded.source_path)
                &&& same_path(wanted.target_path, recorded.target_path)
                &&& wanted.content_fingerprint == recorded.content_fingerprint
            },
            _ => false,
        },
        _ => false,
    }
}

/// How a resource relates is told by what is desired and what is on record of it.
pub proof fn relationship_is_told_by_the_definitions(
    resource: StatusResource,
    relationship: StatusRelationship,
)
    requires
        resource.desired is Some || resource.known is Some,
        call_ensures(StatusResource::relationship, (&resource,), relationship),
    ensures
        relationship is DesiredOnly <==> resource.known is None,
        relationship is KnownOnly <==> resource.desired is None,
        relationship is DefinitionsMatch <==> is_desired_as_recorded(resource),
        relationship is DefinitionChanged <==> resource.desired is Some && resource.known is Some
            && !is_desired_as_recorded(resource),
{
}

/// What is written of a relationship: a word of its own for each.
pub proof fn relationship_is_told_by_its_word(resource: StatusResource)
    requires
        resource.desired is Some || resource.known is Some,
    ensures
        ({
            let start = resource.resource_id@ + ": desired-to-known: "@;
            &&& relation_line(resource) == start + "desired_only"@ <==> resource.known is None
            &&& relation_line(resource) == start + "known_only"@ <==> resource.desired is None
            &&& relation_line(resource) == start + "definitions_match"@
                <==> is_desired_as_recorded(resource)
            &&& relation_line(resource) == start + "definition_changed"@ <==> resource.desired
                is Some && resource.known is Some && !is_desired_as_recorded(resource)
        }),
{
    reveal_strlit("desired_only");
    reveal_strlit("known_only");
    reveal_strlit("definitions_match");
    reveal_strlit("definition_changed");
    let start = resource.resource_id@ + ": desired-to-known: "@;
    let line = relation_line(resource);
    let at = start.len() as int;
    if line == start + "desired_only"@ {
        assert(line.len() == at + 12);
    }
    if line == start + "known_only"@ {
        assert(line.len() == at + 10);
    }
    if line == start + "definitions_match"@ {
        assert(line.len() == at + 17);
    }
    if line == start + "definition_changed"@ {
        assert(line.len() == at + 18);
    }
}

/// What a recorded resource is said to be. It is said to have drifted exactly if the expected effect
/// was not observed, or nothing was. It is said to be recorded and expected exactly if the expected
/// effect was observed and the resource is desired as it is on record. A resource that is not on
/// record is said to be neither.
pub proof fn category_is_told_by_what_was_observed(resource: StatusResource)
    requires
        resource.desired is Some || resource.known is Some,
    ensures
        opens(actual_line(resource), "  known-to-actual: drifted: "@) <==> resource.known is Some
            && !is_as_expected(resource),
        opens(actual_line(resource), "  known-to-actual: recorded_and_expected: "@)
            <==> resource.known is Some && is_as_expected(resource) && is_desired_as_recorded(
            resource,
        ),
        opens(actual_line(resource), "  known-to-actual: expected_link: "@) <==> resource.known
            is Some && is_as_expected(resource) && !is_desired_as_recorded(resource)
            && resource.actual->Available_0 is FileLink,
        opens(actual_line(resource), "  known-to-actual: expected_copy: "@) <==> resource.known
            is Some && is_as_expected(resource) && !is_desired_as_recorded(resource)
            && resource.actual->Available_0 is FileCopy,
        opens(actual_line(resource), "  known-to-actual: "@) <==> resource.known is Some,
        opens(actual_line(resource), "  desired-to-actual: desired_target_observation: "@)
            <==> resource.known is None,
{
    reveal_strlit("  ");
    reveal_strlit(": ");
    reveal_strlit("drifted");
    reveal_strlit("recorded_and_expected");
    reveal_strlit("expected_link");
    reveal_strlit("expected_copy");
    reveal_strlit("desired_target_observation");
    reveal_strlit("known-to-actual");
    reveal_strlit("desired-to-actual");
    reveal_strlit(": unavailable: ");
    reveal_strlit(": unavailable: inspector initialization failed");
    reveal_strlit("  known-to-actual: ");
    reveal_strlit("  known-to-actual: drifted: ");
    reveal_strlit("  known-to-actual: recorded_and_expected: ");
    reveal_strlit("  known-to-actual: expected_link: ");
    reveal_strlit("  known-to-actual: expected_copy: ");
    reveal_strlit("  desired-to-actual: desired_target_observation: ");
    let line = actual_line(resource);
    // The letters by which the words are told apart.
    let letters = (line[2], line[19], line[28]);
    assert(resource.known is Some ==> relation_of(resource) !is DesiredOnly);
}

/// What is said of a resource of which nothing was observed: one that is on record has drifted, and
/// one that is not has its target to be observed.
pub proof fn unobserved_resource_is_never_as_expected(
    resource: StatusResource,
    category: (&'static str, &'static str),
)
    requires
        resource.desired is Some || resource.known is Some,
        call_ensures(unavailable_status_category, (&resource,), category),
    ensures
        resource.known is Some ==> category.0@ == "known-to-actual"@ && category.1@ == "drifted"@,
        resource.known is None ==> category.0@ == "desired-to-actual"@ && category.1@
            == "desired_target_observation"@,
{
}

/// The line on a resource ends with what was observed at its target, or with the reason why nothing
/// was.
pub proof fn observed_line_ends_with_what_was_seen(resource: StatusResource, text: String)
    requires
        match resource.actual {
            StatusActual::Available(actual) => call_ensures(observation, (&actual,), text),
            StatusActual::Unavailable(StatusUnavailable::Observation { message }) => text
                == message,
            StatusActual::Unavailable(StatusUnavailable::InspectorInitialization) => text@
                == "inspector initialization failed"@,
        },
    ensures
        closes(actual_line(resource), text@),
        (resource.actual matches StatusActual::Available(ActualResource::FileLink(link)) ==> closes(
            actual_line(resource),
            ": "@ + link.target_path@ + ": "@ + text@,
        )),
        (resource.actual matches StatusActual::Available(ActualResource::FileCopy(copy)) ==> closes(
            actual_line(resource),
            ": "@ + copy.target_path@ + ": "@ + text@,
        )),
        resource.actual is Unavailable ==> closes(
            actual_line(resource),
            ": unavailable: "@ + text@,
        ),
{
    reveal_strlit(": unavailable: ");
    reveal_strlit("inspector initialization failed");
    reveal_strlit(": unavailable: inspector initialization failed");
}

/// Every kind of action has a name of its own.
pub proof fn action_is_told_by_its_name(kind: ActionKind, word: &'static str)
    requires
        call_ensures(action_name, (kind,), word),
    ensures
        word@ == "create_link"@ <==> kind is CreateLink,
        word@ == "replace_link"@ <==> kind is ReplaceLink,
        word@ == "relocate_link"@ <==> kind is RelocateLink,
        word@ == "replace_ownership"@ <==> kind is ReplaceOwnership,
        word@ == "remove_link"@ <==> kind is RemoveLink,
        word@ == "forget_missing"@ <==> kind is ForgetMissing,
        word@ == "create_copy"@ <==> kind is CreateCopy,
        word@ == "replace_copy"@ <==> kind is ReplaceCopy,
        word@ == "relocate_copy"@ <==> kind is RelocateCopy,
        word@ == "remove_copy"@ <==> kind is RemoveCopy,
        word@ == "replace_effect"@ <==> kind is ReplaceEffect,
        word@ == "noop"@ <==> kind is Noop,
{
    reveal_strlit("create_link");
    reveal_strlit("replace_link");
    reveal_strlit("relocate_link");
    reveal_strlit("replace_ownership");
    reveal_strlit("remove_link");
    reveal_strlit("forget_missing");
    reveal_strlit("create_copy");
    reveal_strlit("replace_copy");
    reveal_strlit("relocate_copy");
    reveal_strlit("remove_copy");
    reveal_strlit("replace_effect");
    reveal_strlit("noop");
    // The letters by which the words are told apart.
    let letters = (word@.len(), word@[0], word@[7], word@[8], word@[9]);
}

/// Every reason for an action has words of its own.
pub proof fn reason_is_told_by_its_words(why: ActionReason, word: &'static str)
    requires
        call_ensures(reason, (why,), word),
    ensures
        word@ == "target missing"@ <==> why is TargetMissing,
        word@ == "source changed"@ <==> why is SourceChanged,
        word@ == "target changed"@ <==> why is TargetChanged,
        word@ == "managed identity handoff"@ <==> why is ManagedIdentityHandoff,
        word@ == "stale resource"@ <==> why is StaleResource,
        word@ == "stale resource target missing"@ <==> why is StaleResourceTargetMissing,
        word@ == "already satisfied"@ <==> why is AlreadySatisfied,
{
    reveal_strlit("target missing");
    reveal_strlit("source changed");
    reveal_strlit("target changed");
    reveal_strlit("managed identity handoff");
    reveal_strlit("stale resource");
    reveal_strlit("stale resource target missing");
    reveal_strlit("already satisfied");
    // The letters by which the words are told apart.
    let letters = (word@.len(), word@[0], word@[7]);
}

/// The line on a planned action tells what it does to which resource, at which targets, and why.
///
/// It starts with the name of the action and its resource, and ends with the reason. A change of
/// ownership names the resource that gives the target away before the one that takes it.
pub proof fn planned_line_tells_the_action(action: ActionView)
    ensures
        action is Create ==> closes(planned_line(action), ": target missing"@),
        action is Replace || action is ReplaceEffect ==> closes(
            planned_line(action),
            ": source changed"@,
        ),
        action is Relocate ==> closes(planned_line(action), ": target changed"@),
        action is ReplaceOwnership ==> closes(
            planned_line(action),
            ": managed identity handoff"@,
        ),
        action is Remove ==> closes(planned_line(action), ": stale resource"@),
        action is ForgetMissing ==> closes(
            planned_line(action),
            ": stale resource target missing"@,
        ),
        action is Noop ==> closes(planned_line(action), ": already satisfied"@),
        action is ReplaceOwnership ==> opens(
            planned_line(action),
            "replace_ownership "@ + action.previous()->0.resource_id() + " -> "@
                + action.desired()->0.resource_id() + ": "@,
        ),
        action !is ReplaceOwnership ==> opens(
            planned_line(action),
            action_text(action.kind()) + " "@ + action.resource_id() + ": "@,
        ),
        action is Relocate ==> opens(
            planned_line(action),
            action_text(action.kind()) + " "@ + action.resource_id() + ": "@
                + action.previous()->0.target_path() + ", "@ + action.desired()->0.target_path()
                + ": "@,
        ),
        action !is Relocate && action !is ReplaceOwnership ==> opens(
            planned_line(action),
            action_text(action.kind()) + " "@ + action.resource_id() + ": "@ + (
            if action.previous() is Some {
                action.previous()->0.target_path()
            } else {
                action.desired()->0.target_path()
            }) + ": "@,
        ),
{
    reveal_strlit(": target missing");
    reveal_strlit(": source changed");
    reveal_strlit(": target changed");
    reveal_strlit(": managed identity handoff");
    reveal_strlit(": stale resource");
    reveal_strlit(": stale resource target missing");
    reveal_strlit(": already satisfied");
    reveal_strlit("target missing");
    reveal_strlit("source changed");
    reveal_strlit("target changed");
    reveal_strlit("managed identity handoff");
    reveal_strlit("stale resource");
    reveal_strlit("stale resource target missing");
    reveal_strlit("already satisfied");
    reveal_strlit("replace_ownership");
    reveal_strlit("replace_ownership ");
    reveal_strlit(" ");
    reveal_strlit(": ");
    let paths = condition_paths(action.preconditions());
    if let ActionView::Relocate { desired, previous } = action {
        assert(paths =~= seq![previous.target_path(), desired.target_path()]);
        lemma_join_two(previous.target_path(), desired.target_path(), ", "@);
    } else {
        assert(paths.len() == 1);
        reveal_with_fuel(join, 2);
        assert(join(paths, ", "@) =~= paths[0]);
    }
}

/// A line on an obstacle tells whether it is a conflict with what was found, or something that keeps
/// the plan from being made.
pub proof fn obstacle_is_told_by_its_word(diagnostic: Diagnostic)
    ensures
        opens(diagnostic_line(diagnostic), "conflict: "@) <==> diagnostic is TargetCollision
            || diagnostic is UnexpectedTarget || diagnostic is UnexpectedCopyTarget
            || diagnostic is IdentityHandoffPrecondition,
        opens(diagnostic_line(diagnostic), "blocked: "@) <==> diagnostic
            is MissingActualObservation || diagnostic is UnsupportedPlatform || diagnostic
            is UnsupportedResourceEffect,
{
    reveal_strlit("conflict: ");
    reveal_strlit("conflict: target ");
    reveal_strlit("blocked: ");
    reveal_strlit("blocked: missing observation for ");
    // The letter by which the words are told apart.
    let letter = diagnostic_line(diagnostic)[0];
}

/// A line on an obstacle names the target, the resources and what was found there.
pub proof fn obstacle_names_what_it_is_about(diagnostic: Diagnostic)
    ensures
        match diagnostic {
            Diagnostic::TargetCollision { target_path, resource_ids } => opens(
                diagnostic_line(diagnostic),
                "conflict: target "@ + target_path@ + " claimed by "@,
            ) && (resource_ids@.len() > 0 ==> closes(
                diagnostic_line(diagnostic),
                resource_ids@.last()@,
            )) && (resource_ids@.len() > 0 ==> opens(
                diagnostic_line(diagnostic),
                "conflict: target "@ + target_path@ + " claimed by "@ + resource_ids@[0]@,
            )),
            Diagnostic::UnexpectedTarget { resource_id, target_path, .. } => opens(
                diagnostic_line(diagnostic),
                "conflict: "@ + resource_id@ + ": "@ + target_path@ + ": "@,
            ),
            Diagnostic::UnexpectedCopyTarget { resource_id, target_path, .. } => opens(
                diagnostic_line(diagnostic),
                "conflict: "@ + resource_id@ + ": "@ + target_path@ + ": "@,
            ),
            Diagnostic::MissingActualObservation { target_path } => diagnostic_line(diagnostic)
                == "blocked: missing observation for "@ + target_path@,
            Diagnostic::UnsupportedPlatform { resource_id, action_kind } => opens(
                diagnostic_line(diagnostic),
                "blocked: "@ + resource_id@ + ": unsupported "@,
            ) && closes(diagnostic_line(diagnostic), action_text(action_kind)),
            Diagnostic::UnsupportedResourceEffect { resource_id, target_path, effect } => opens(
                diagnostic_line(diagnostic),
                "blocked: "@ + resource_id@ + ": "@ + target_path@ + ": "@ + effect@,
            ) && closes(diagnostic_line(diagnostic), " planning is not implemented"@),
            Diagnostic::IdentityHandoffPrecondition {
                old_resource_id,
                new_resource_id,
                target_path,
                ..
            } => opens(
                diagnostic_line(diagnostic),
                "conflict: "@ + old_resource_id@ + " -> "@ + new_resource_id@ + ": "@
                    + target_path@ + ": "@,
            ),
        },
{
    if let Diagnostic::TargetCollision { target_path, resource_ids } = diagnostic {
        if resource_ids@.len() > 0 {
            lemma_join_ends(id_texts(resource_ids@), ", "@);
        }
    }
}

proof fn lemma_join_ends(parts: Seq<Seq<char>>, separator: Seq<char>)
    requires
        parts.len() > 0,
    ensures
        opens(join(parts, separator), parts[0]),
        closes(join(parts, separator), parts.last()),
    decreases parts.len(),
{
    if parts.len() > 1 {
        lemma_join_ends(parts.drop_last(), separator);
    }
}

/// A line on an obstacle at a target ends with what was found at the target of a link.
pub proof fn obstacle_tells_what_was_found(
    diagnostic: Diagnostic,
    found: TargetObservation,
    text: String,
)
    requires
        call_ensures(link_observation, (&found,), text),
        match diagnostic {
            Diagnostic::UnexpectedTarget { observation, .. } => observation == found,
            Diagnostic::IdentityHandoffPrecondition { observation, .. } => observation == found,
            _ => false,
        },
    ensures
        closes(diagnostic_line(diagnostic), ": "@ + text@),
{
}

/// A line on an obstacle at the target of a copy tells what was found there by a word of its own.
pub proof fn obstacle_tells_what_was_found_of_a_copy(
    resource_id: FullyQualifiedResourceId,
    target_path: ResolvedPath,
    observation: CopyTargetObservation,
)
    ensures
        ({
            let line = diagnostic_line(
                Diagnostic::UnexpectedCopyTarget { resource_id, target_path, observation },
            );
            let start = "conflict: "@ + resource_id@ + ": "@ + target_path@ + ": "@;
            &&& opens(line, start + "Missing"@) <==> observation is Missing
            &&& opens(line, start + "ExpectedCopy"@) <==> observation is ExpectedCopy
            &&& opens(line, start + "OtherRegularFile"@) <==> observation is OtherRegularFile
            &&& opens(line, start + "OtherEntry"@) <==> observation is OtherEntry
            &&& opens(line, start + "UnsafePath"@) <==> observation is UnsafePath
            &&& observation matches CopyTargetObservation::ExpectedCopy { content_fingerprint }
                ==> closes(line, "(\""@ + content_fingerprint@ + "\") }"@)
            &&& observation matches CopyTargetObservation::OtherRegularFile { content_fingerprint }
                ==> closes(line, "(\""@ + content_fingerprint@ + "\") }"@)
            &&& observation matches CopyTargetObservation::OtherEntry { kind } ==> closes(
                line,
                "{ kind: "@ + kind@ + " }"@,
            )
            &&& observation matches CopyTargetObservation::UnsafePath { parent_safety } ==> closes(
                line,
                "{ parent_safety: "@ + parent_safety@ + " }"@,
            )
        }),
{
    reveal_strlit("Missing");
    reveal_strlit("ExpectedCopy");
    reveal_strlit("OtherRegularFile");
    reveal_strlit("OtherEntry");
    reveal_strlit("UnsafePath");
    reveal_strlit("ExpectedCopy { content_fingerprint: ContentFingerprint(\"");
    reveal_strlit("OtherRegularFile { content_fingerprint: ContentFingerprint(\"");
    reveal_strlit("OtherEntry { kind: ");
    reveal_strlit("UnsafePath { parent_safety: ");
    reveal_strlit("(\"");
    reveal_strlit("\") }");
    reveal_strlit("{ kind: ");
    reveal_strlit("{ parent_safety: ");
    reveal_strlit(" }");
    let line = diagnostic_line(
        Diagnostic::UnexpectedCopyTarget { resource_id, target_path, observation },
    );
    let start = "conflict: "@ + resource_id@ + ": "@ + target_path@ + ": "@;
    let fields = copy_observation_fields(observation);
    assert(line =~= start + fields);
    lemma_opens_after(start, fields, "Missing"@);
    lemma_opens_after(start, fields, "ExpectedCopy"@);
    lemma_opens_after(start, fields, "OtherRegularFile"@);
    lemma_opens_after(start, fields, "OtherEntry"@);
    lemma_opens_after(start, fields, "UnsafePath"@);
    // The letters by which the words are told apart.
    let letters = (fields[0], fields[5]);
}

proof fn lemma_opens_after(start: Seq<char>, rest: Seq<char>, word: Seq<char>)
    ensures
        opens(start + rest, start + word) == opens(rest, word),
{
    let text = start + rest;
    if opens(text, start + word) {
        assert forall|i: int| 0 <= i < word.len() implies #[trigger] rest[i] == word[i] by {
            assert(text[start.len() + i] == (start + word)[start.len() + i]);
        }
    }
    if opens(rest, word) {
        assert forall|i: int| 0 <= i < (start + word).len() implies #[trigger] text[i] == (start
            + word)[i] by {
            if i >= start.len() {
                assert(rest[i - start.len()] == word[i - start.len()]);
            }
        }
    }
}

/// The line on a desired resource names its source and its target, and tells a link from a copy.
pub proof fn desired_line_tells_the_resource(resource: ResolvedResource, line: String)
    requires
        call_ensures(render_resolved_resource, (&resource,), line),
    ensures
        closes(line@, ": operation link"@) <==> resource@ is Link,
        closes(line@, ": operation copy"@) <==> resource@ is Copy,
        (resource@ matches EffectView::Link(link) ==> opens(
            line@,
            link.resource_id + ": file link: source "@ + link.source_path + ": target "@
                + link.target_path,
        )),
        (resource@ matches EffectView::Copy(copy) ==> opens(
            line@,
            copy.resource_id + ": file copy: source "@ + copy.source_path + ": target "@
                + copy.target_path,
        )),
{
    reveal_strlit(": operation link");
    reveal_strlit(": operation copy");
    // The letter by which the words are told apart.
    let ending = line@.len() - ": operation link"@.len();
    assert(line@[ending + 12] == 'l' <==> resource@ is Link);
}

/// The line on a recorded resource names its source and its target, and the content of a copy.
pub proof fn known_line_tells_the_resource(resource: KnownResource, line: String)
    requires
        call_ensures(render_known_resource, (&resource,), line),
    ensures
        (resource@ matches EffectView::Link(link) ==> opens(
            line@,
            link.resource_id + ": file link: source "@ + link.source_path,
        ) && closes(line@, link.source_path + ": target "@ + link.target_path)),
        (resource@ matches EffectView::Copy(copy) ==> opens(
            line@,
            copy.resource_id + ": file copy: source "@ + copy.source_path + ": target "@
                + copy.target_path,
        ) && closes(line@, copy.target_path + ": content "@ + copy.content_fingerprint)),
{
}

/// An action of an open operation is named exactly if it is not settled: pending, running or
/// uncertain, each by its own word.
pub proof fn unsettled_action_is_told_by_its_word(status: ActionStatus)
    ensures
        unfinished_text(status) == Some("pending"@) <==> status is Pending,
        unfinished_text(status) == Some("running"@) <==> status is Running,
        unfinished_text(status) == Some("uncertain"@) <==> status is Uncertain,
        unfinished_text(status) is None <==> status is Succeeded || status is Failed || status
            is Skipped,
{
    reveal_strlit("pending");
    reveal_strlit("running");
    reveal_strlit("uncertain");
    assert("pending"@[0] != "running"@[0]);
    assert("pending"@.len() != "uncertain"@.len());
    assert("running"@.len() != "uncertain"@.len());
}

/// An action adds a line to those of the actions before it exactly if it is not settled, and the
/// line names the action, its resource and its target.
pub proof fn unsettled_actions_are_listed_in_order(entries: Seq<EntryView>, entry: EntryView)
    ensures
        unfinished_lines(Seq::empty()).len() == 0,
        ({
            let before = unfinished_lines(entries);
            let after = unfinished_lines(entries.push(entry));
            let settled = entry.action.status is Succeeded || entry.action.status is Failed
                || entry.action.status is Skipped;
            &&& settled ==> after == before
            &&& !settled ==> after.len() == before.len() + 1 && after.take(before.len() as int)
                == before && opens(
                after.last(),
                "  "@ + entry.id + ": "@ + action_text(entry.action.kind) + " "@
                    + entry.action.resource_id + ": "@ + entry.action.target_path + ": "@,
            )
        }),
{
    assert(entries.push(entry).drop_last() =~= entries);
    let before = unfinished_lines(entries);
    let after = unfinished_lines(entries.push(entry));
    if after.len() > before.len() {
        assert(after.take(before.len() as int) =~= before);
    }
}

/// The exit code of a profile that does not resolve: one where something could not be read, and two
/// where the declaration is wrong or there is none.
pub proof fn unread_profile_exits_with_one(error: ResolverError, code: u8)
    requires
        call_ensures(resolver_exit_code, (&error,), code),
    ensures
        code == 1 || code == 2,
        code == 1 <==> error is ReadProfile || error is HomeDirectoryIo || (error matches
            ResolverError::ProfileDiscoveryIo { not_found, .. } && !not_found),
{
}

/// The exit code of a validation: zero exactly if every profile is valid, one exactly if something
/// could not be read, and two otherwise.
pub proof fn validation_exits_by_its_worst_profile(report: ValidationReport, rendered: Rendered)
    requires
        call_ensures(validation, (&report,), rendered),
    ensures
        rendered.code <= 2,
        rendered.code == 0 <==> forall|i: int|
            0 <= i < report.profiles@.len() ==> (#[trigger] report.profiles@[i]).result is Ok,
        rendered.code == 1 <==> exists|i: int|
            0 <= i < report.profiles@.len() && ((#[trigger] report.profiles@[i]).result matches Err(
                error,
            ) && (error is ReadProfile || error is HomeDirectoryIo || (error matches
                ResolverError::ProfileDiscoveryIo { not_found, .. } && !not_found))),
{
    let profiles = report.profiles@;
    if exists|i: int| 0 <= i < profiles.len() && unreadable(#[trigger] profiles[i]) {
        let i = choose|i: int| 0 <= i < profiles.len() && unreadable(#[trigger] profiles[i]);
        assert(profiles[i].result is Err);
    }
    if exists|i: int|
        0 <= i < profiles.len() && ((#[trigger] profiles[i]).result matches Err(error) && (error
            is ReadProfile || error is HomeDirectoryIo || (error matches
            ResolverError::ProfileDiscoveryIo { not_found, .. } && !not_found))) {
        let i = choose|i: int|
            0 <= i < profiles.len() && ((#[trigger] profiles[i]).result matches Err(error) && (
            error is ReadProfile || error is HomeDirectoryIo || (error matches
                ResolverError::ProfileDiscoveryIo { not_found, .. } && !not_found)));
        assert(unreadable(profiles[i]));
    }
}

/// A profile adds one line to those of the profiles before it: among the valid ones if it resolves,
/// and among the invalid ones, with the reason, if it does not.
pub proof fn profile_is_listed_once(profiles: Seq<ValidatedProfile>, profile: ValidatedProfile)
    ensures
        valid_lines(Seq::empty()).len() == 0,
        invalid_lines(Seq::empty()).len() == 0,
        match profile.result {
            Ok(_) => valid_lines(profiles.push(profile)) == valid_lines(profiles).push(
                "valid profile: "@ + profile.profile@,
            ) && invalid_lines(profiles.push(profile)) == invalid_lines(profiles),
            Err(error) => valid_lines(profiles.push(profile)) == valid_lines(profiles)
                && invalid_lines(profiles.push(profile)) == invalid_lines(profiles).push(
                "invalid profile "@ + profile.profile@ + ": "@ + error.message(),
            ),
        },
        valid_lines(profiles.push(profile)).len() + invalid_lines(profiles.push(profile)).len()
            == valid_lines(profiles).len() + invalid_lines(profiles).len() + 1,
{
    assert(profiles.push(profile).drop_last() =~= profiles);
}

/// A request that could not be answered says why: the configuration that could not be read or is
/// wrong, the field that there is none of, or what came from elsewhere as it came.
pub proof fn unanswered_request_says_why(error: QueryError, text: String)
    requires
        call_ensures(query_error, (&error,), text),
    ensures
        (error matches QueryError::ConfigurationRead { path, message } ==> opens(
            text@,
            "cannot read configuration "@ + path@ + ": "@,
        ) && closes(text@, message@)),
        (error matches QueryError::Configuration { message } ==> opens(
            text@,
            "invalid environment configuration: "@,
        ) && closes(text@, message@)),
        (error matches QueryError::ConfigField(field) ==> opens(
            text@,
            "unsupported configuration field: "@,
        ) && closes(text@, field@)),
        (error matches QueryError::Resolution(inner) ==> text@ == inner.message()),
        (error matches QueryError::State(inner) ==> text@ == inner.message()),
        (error matches QueryError::Inspection { message } ==> text@ == message@),
{
}

/// A plan that may be executed exits with success and says so. Every other plan exits with two and
/// says that it is blocked.
pub proof fn blocked_plan_never_exits_with_success(report: PlanReport, rendered: Rendered)
    requires
        call_ensures(plan, (&report,), rendered),
    ensures
        rendered.code == 0 <==> report.plan@.executable(),
        rendered.code == 2 <==> !report.plan@.executable(),
        opens(rendered.out@, "profile "@ + report.profile@ + ": executable plan\n"@)
            <==> report.plan@.executable(),
        opens(rendered.out@, "profile "@ + report.profile@ + ": blocked plan\n"@)
            <==> !report.plan@.executable(),
{
    reveal_strlit(": ");
    reveal_strlit(" plan");
    reveal_strlit("executable");
    reveal_strlit("blocked");
    reveal_strlit(": executable plan\n");
    reveal_strlit(": blocked plan\n");
    let head = "profile "@ + report.profile@ + ": "@ + executable_text(report.plan@) + " plan"@;
    lemma_lined_add(seq![head], planned_lines(report.plan@));
    lemma_one_line(head);
    let start = "profile "@ + report.profile@;
    let rest = (": "@ + executable_text(report.plan@) + " plan"@).push('\n') + lined(
        planned_lines(report.plan@),
    );
    assert(rendered.out@ =~= start + rest);
    lemma_opens_after(start, rest, ": executable plan\n"@);
    lemma_opens_after(start, rest, ": blocked plan\n"@);
    // The letter by which the words are told apart.
    let letter = rest[2];
}

proof fn lemma_one_line(line: Seq<char>)
    ensures
        lined(seq![line]) == line.push('\n'),
{
    reveal_strlit("\n");
    let lines = seq![line];
    assert(lines.drop_last() =~= Seq::empty());
    assert(lined(lines.drop_last()) =~= Seq::empty());
    assert(lined(lines) =~= line.push('\n'));
}

/// What is written of one field of the configuration: where it was read, and then its value under
/// its name, with a word of its own for a default profile that is not set.
pub proof fn field_is_written_under_its_name(
    report: ConfigurationValueReport,
    field: &str,
    rendered: Rendered,
)
    requires
        call_ensures(config_get, (&report, field), rendered),
    ensures
        rendered.code == 0,
        rendered.err@.len() == 0,
        opens(rendered.out@, "configuration: "@ + report.configuration_path@ + "\n"@),
        match report.value {
            ConfigurationValue::StorePath(path) => closes(
                rendered.out@,
                "\n"@ + field@ + ": "@ + path@ + "\n"@,
            ),
            ConfigurationValue::DefaultProfile(Some(profile)) => closes(
                rendered.out@,
                "\ndefault_profile: "@ + profile@ + "\n"@,
            ),
            ConfigurationValue::DefaultProfile(None) => closes(
                rendered.out@,
                "\ndefault_profile: <unset>\n"@,
            ),
        },
{
    reveal_strlit("\n");
    reveal_strlit("default_profile: ");
    reveal_strlit("\ndefault_profile: ");
    reveal_strlit("default_profile: <unset>");
    reveal_strlit("\ndefault_profile: <unset>\n");
    let first = "configuration: "@ + report.configuration_path@;
    let second = value_line(report.value, field@);
    assert(seq![first, second] =~= seq![first] + seq![second]);
    lemma_lined_add(seq![first], seq![second]);
    lemma_one_line(first);
    lemma_one_line(second);
}

} // verus!
