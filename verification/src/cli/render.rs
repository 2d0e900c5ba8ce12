//! Reports as text.

use vstd::prelude::*;
use vstd::string::*;
use crate::application::queries::{
    desired_effect, known_effect, relates, ConfigurationReport, ConfigurationValue,
    ConfigurationValueReport, DesiredResourcesReport, DeclaredResource, DiffReport, DiffResource,
    KnownResourcesReport, PlanReport, ProfileListReport, ProfileShowReport, QueryError,
    ResolverError, StatusActual, StatusDesired, StatusRelationship, StatusReport, StatusResource,
    StatusUnavailable, StorePath, ValidatedProfile, ValidationReport,
};
use crate::domain::actual::{ActualResource, CopyTargetObservation, TargetObservation};
use crate::domain::desired::ResolvedResource;
use crate::domain::diagnostic::Diagnostic;
use crate::domain::effects::EffectView;
use crate::domain::ids::{FullyQualifiedResourceId, ProfileId};
use crate::domain::known::KnownResource;
use crate::domain::plan::{
    condition_views, ActionKind, ActionReason, ActionView, ConditionView, Plan, PlanView,
    PlannedResourceAction,
};
use crate::state::operation::{
    entry_views, ActionStatus, EntryView, OperationRecord, RecordedEntry,
};
use crate::text::{copy_of, decimal, join, join_texts, lined, lined_texts, texts, to_decimal};

verus! {

/// What a command writes, and its exit code.
#[derive(Debug, PartialEq, Eq)]
pub struct Rendered {
    pub out: String,
    pub err: String,
    pub code: u8,
}

/// The written name of a kind of action.
pub open spec fn action_text(kind: ActionKind) -> Seq<char> {
    match kind {
        ActionKind::CreateLink => "create_link"@,
        ActionKind::ReplaceLink => "replace_link"@,
        ActionKind::RelocateLink => "relocate_link"@,
        ActionKind::ReplaceOwnership => "replace_ownership"@,
        ActionKind::RemoveLink => "remove_link"@,
        ActionKind::ForgetMissing => "forget_missing"@,
        ActionKind::CreateCopy => "create_copy"@,
        ActionKind::ReplaceCopy => "replace_copy"@,
        ActionKind::RelocateCopy => "relocate_copy"@,
        ActionKind::RemoveCopy => "remove_copy"@,
        ActionKind::ReplaceEffect => "replace_effect"@,
        ActionKind::Noop => "noop"@,
    }
}

/// The written name of a kind of action.
pub fn action_name(kind: ActionKind) -> (name: &'static str)
    ensures
        name@ == action_text(kind),
{
    match kind {
        ActionKind::CreateLink => "create_link",
        ActionKind::ReplaceLink => "replace_link",
        ActionKind::RelocateLink => "relocate_link",
        ActionKind::ReplaceOwnership => "replace_ownership",
        ActionKind::RemoveLink => "remove_link",
        ActionKind::ForgetMissing => "forget_missing",
        ActionKind::CreateCopy => "create_copy",
        ActionKind::ReplaceCopy => "replace_copy",
        ActionKind::RelocateCopy => "relocate_copy",
        ActionKind::RemoveCopy => "remove_copy",
        ActionKind::ReplaceEffect => "replace_effect",
        ActionKind::Noop => "noop",
    }
}

/// The written reason of an action.
pub open spec fn reason_text(reason: ActionReason) -> Seq<char> {
    match reason {
        ActionReason::TargetMissing => "target missing"@,
        ActionReason::SourceChanged => "source changed"@,
        ActionReason::TargetChanged => "target changed"@,
        ActionReason::ManagedIdentityHandoff => "managed identity handoff"@,
        ActionReason::StaleResource => "stale resource"@,
        ActionReason::StaleResourceTargetMissing => "stale resource target missing"@,
        ActionReason::AlreadySatisfied => "already satisfied"@,
    }
}

/// The written reason of an action.
pub fn reason(why: ActionReason) -> (text: &'static str)
    ensures
        text@ == reason_text(why),
{
    match why {
        ActionReason::TargetMissing => "target missing",
        ActionReason::SourceChanged => "source changed",
        ActionReason::TargetChanged => "target changed",
        ActionReason::ManagedIdentityHandoff => "managed identity handoff",
        ActionReason::StaleResource => "stale resource",
        ActionReason::StaleResourceTargetMissing => "stale resource target missing",
        ActionReason::AlreadySatisfied => "already satisfied",
    }
}

/// What was observed at the target of a link, written out.
pub open spec fn link_observation_text(observation: TargetObservation) -> Seq<char> {
    match observation {
        TargetObservation::Missing => "missing"@,
        TargetObservation::ExpectedLink { link_target } => "expected_link -> "@ + link_target@,
        TargetObservation::MatchingUnmanagedLink { link_target } => "matching_unmanaged_link -> "@
            + link_target@,
        TargetObservation::OtherLink { link_target } => "other_link -> "@ + link_target@,
        TargetObservation::OtherEntry { kind } => "other_entry ("@ + kind@ + ")"@,
        TargetObservation::UnsafePath { parent_safety } => "unsafe_path ("@ + parent_safety@
            + ")"@,
    }
}

/// What was observed at the target of a link, written out.
pub fn link_observation(observation: &TargetObservation) -> (text: String)
    ensures
        text@ == link_observation_text(*observation),
{
    match observation {
        TargetObservation::Missing => copy_of("missing"),
        TargetObservation::ExpectedLink { link_target } => copy_of("expected_link -> ").concat(
            link_target.as_path().as_path(),
        ),
        TargetObservation::MatchingUnmanagedLink { link_target } => copy_of(
            "matching_unmanaged_link -> ",
        ).concat(link_target.as_path().as_path()),
        TargetObservation::OtherLink { link_target } => copy_of("other_link -> ").concat(
            link_target.as_path().as_path(),
        ),
        TargetObservation::OtherEntry { kind } => copy_of("other_entry (").concat(
            kind.as_str(),
        ).concat(")"),
        TargetObservation::UnsafePath { parent_safety } => copy_of("unsafe_path (").concat(
            parent_safety.as_str(),
        ).concat(")"),
    }
}

/// What was observed at a target, written out.
pub open spec fn observation_text(actual: ActualResource) -> Seq<char> {
    match actual {
        ActualResource::FileLink(actual) => link_observation_text(actual.observation),
        ActualResource::FileCopy(actual) => match actual.observation {
            CopyTargetObservation::Missing => "missing"@,
            CopyTargetObservation::ExpectedCopy { content_fingerprint } => "expected_copy ("@
                + content_fingerprint@ + ")"@,
            CopyTargetObservation::OtherRegularFile { content_fingerprint } =>
                "other_regular_file ("@ + content_fingerprint@ + ")"@,
            CopyTargetObservation::OtherEntry { kind } => "other_entry ("@ + kind@ + ")"@,
            CopyTargetObservation::UnsafePath { parent_safety } => "unsafe_path ("@
                + parent_safety@ + ")"@,
        },
    }
}

/// What was observed at a target, written out.
pub fn observation(actual: &ActualResource) -> (text: String)
    ensures
        text@ == observation_text(*actual),
{
    match actual {
        ActualResource::FileLink(actual) => link_observation(&actual.observation),
        ActualResource::FileCopy(actual) => match &actual.observation {
            CopyTargetObservation::Missing => copy_of("missing"),
            CopyTargetObservation::ExpectedCopy { content_fingerprint } => copy_of(
                "expected_copy (",
            ).concat(content_fingerprint.as_str()).concat(")"),
            CopyTargetObservation::OtherRegularFile { content_fingerprint } => copy_of(
                "other_regular_file (",
            ).concat(content_fingerprint.as_str()).concat(")"),
            CopyTargetObservation::OtherEntry { kind } => copy_of("other_entry (").concat(
                kind.as_str(),
            ).concat(")"),
            CopyTargetObservation::UnsafePath { parent_safety } => copy_of("unsafe_path (").concat(
                parent_safety.as_str(),
            ).concat(")"),
        },
    }
}

/// The category of an observation that shows the expected effect.
pub open spec fn expected_text(actual: ActualResource) -> Option<Seq<char>> {
    match actual {
        ActualResource::FileLink(actual) => if actual.observation is ExpectedLink {
            Some("expected_link"@)
        } else {
            None
        },
        ActualResource::FileCopy(actual) => if actual.observation is ExpectedCopy {
            Some("expected_copy"@)
        } else {
            None
        },
    }
}

/// The category of an observation that shows the expected effect.
pub fn expected_category(actual: &ActualResource) -> (category: Option<&'static str>)
    ensures
        match category {
            Some(category) => expected_text(*actual) == Some(category@),
            None => expected_text(*actual) is None,
        },
{
    match actual {
        ActualResource::FileLink(actual) => match actual.observation {
            TargetObservation::ExpectedLink { .. } => Some("expected_link"),
            _ => None,
        },
        ActualResource::FileCopy(actual) => match actual.observation {
            CopyTargetObservation::ExpectedCopy { .. } => Some("expected_copy"),
            _ => None,
        },
    }
}

/// The exit code of a resolver error: one for what could not be read, two for what is wrong.
pub open spec fn resolver_code(error: ResolverError) -> u8 {
    match error {
        ResolverError::ReadProfile { .. } => 1,
        ResolverError::HomeDirectoryIo { .. } => 1,
        ResolverError::ProfileDiscoveryIo { not_found, .. } => if not_found {
            2
        } else {
            1
        },
        ResolverError::Other { .. } => 2,
    }
}

/// The exit code of a resolver error.
pub fn resolver_exit_code(error: &ResolverError) -> (code: u8)
    ensures
        code == resolver_code(*error),
{
    match error {
        ResolverError::ReadProfile { .. } => 1,
        ResolverError::HomeDirectoryIo { .. } => 1,
        ResolverError::ProfileDiscoveryIo { not_found, .. } => if *not_found {
            2
        } else {
            1
        },
        ResolverError::Other { .. } => 2,
    }
}

/// The lines on the valid profiles, in order.
pub open spec fn valid_lines(profiles: Seq<ValidatedProfile>) -> Seq<Seq<char>>
    decreases profiles.len(),
{
    if profiles.len() == 0 {
        Seq::empty()
    } else if profiles.last().result is Ok {
        valid_lines(profiles.drop_last()).push("valid profile: "@ + profiles.last().profile@)
    } else {
        valid_lines(profiles.drop_last())
    }
}

/// The lines on the invalid profiles, in order.
pub open spec fn invalid_lines(profiles: Seq<ValidatedProfile>) -> Seq<Seq<char>>
    decreases profiles.len(),
{
    if profiles.len() == 0 {
        Seq::empty()
    } else {
        match profiles.last().result {
            Ok(_) => invalid_lines(profiles.drop_last()),
            Err(error) => invalid_lines(profiles.drop_last()).push(
                "invalid profile "@ + profiles.last().profile@ + ": "@ + error.message(),
            ),
        }
    }
}

/// Whether a profile is invalid because something could not be read.
pub open spec fn unreadable(profile: ValidatedProfile) -> bool {
    profile.result matches Err(error) && resolver_code(error) == 1
}

/// The exit code of a validation: one if anything could not be read, or else two if anything is
/// wrong.
pub open spec fn validation_code(profiles: Seq<ValidatedProfile>) -> u8 {
    if exists|i: int| 0 <= i < profiles.len() && unreadable(#[trigger] profiles[i]) {
        1
    } else if exists|i: int| 0 <= i < profiles.len() && (#[trigger] profiles[i]).result is Err {
        2
    } else {
        0
    }
}

/// The lines of a validation that go to the output.
pub open spec fn validation_lines(profiles: Seq<ValidatedProfile>) -> Seq<Seq<char>> {
    if profiles.len() == 0 {
        seq!["No profiles discovered."@]
    } else {
        valid_lines(profiles)
    }
}

/// Which profiles are valid, written out.
pub fn validation(report: &ValidationReport) -> (rendered: Rendered)
    ensures
        rendered.out@ == lined(validation_lines(report.profiles@)),
        rendered.err@ == lined(invalid_lines(report.profiles@)),
        rendered.code == validation_code(report.profiles@),
{
    let ghost all = report.profiles@;
    let mut out: Vec<String> = Vec::new();
    let mut err: Vec<String> = Vec::new();
    let mut any_unreadable = false;
    let mut any_invalid = false;
    let mut i: usize = 0;
    proof {
        assert(all.take(0) =~= Seq::<ValidatedProfile>::empty());
        assert(texts(out@) =~= Seq::<Seq<char>>::empty());
        assert(texts(err@) =~= Seq::<Seq<char>>::empty());
    }
    while i < report.profiles.len()
        invariant
            i <= report.profiles@.len(),
            all == report.profiles@,
            texts(out@) == valid_lines(all.take(i as int)),
            texts(err@) == invalid_lines(all.take(i as int)),
            any_unreadable == (exists|k: int| 0 <= k < i && unreadable(#[trigger] all[k])),
            any_invalid == (exists|k: int| 0 <= k < i && (#[trigger] all[k]).result is Err),
        decreases report.profiles.len() - i,
    {
        let ghost before_out = out@;
        let ghost before_err = err@;
        let entry = &report.profiles[i];
        proof {
            assert(all.take(i + 1).drop_last() =~= all.take(i as int));
            assert(all.take(i + 1).last() == all[i as int]);
        }
        match &entry.result {
            Ok(_) => {
                let line = copy_of("valid profile: ").concat(entry.profile.as_str());
                out.push(line);
                assert(texts(out@) =~= texts(before_out).push(line@));
            },
            Err(error) => {
                let line = copy_of("invalid profile ").concat(entry.profile.as_str()).concat(
                    ": ",
                ).concat(error.to_text().as_str());
                err.push(line);
                assert(texts(err@) =~= texts(before_err).push(line@));
                if resolver_exit_code(error) == 1 {
                    any_unreadable = true;
                    assert(unreadable(all[i as int]));
                }
                any_invalid = true;
                assert(all[i as int].result is Err);
            },
        }
        i += 1;
    }
    proof {
        assert(all.take(i as int) =~= all);
    }
    if report.profiles.len() == 0 {
        out.push(copy_of("No profiles discovered."));
        assert(texts(out@) =~= validation_lines(all));
    }
    Rendered {
        out: lined_texts(&out),
        err: lined_texts(&err),
        code: if any_unreadable {
            1
        } else if any_invalid {
            2
        } else {
            0
        },
    }
}

/// The written status of an action that is not finished.
pub open spec fn unfinished_text(status: ActionStatus) -> Option<Seq<char>> {
    match status {
        ActionStatus::Pending => Some("pending"@),
        ActionStatus::Running => Some("running"@),
        ActionStatus::Uncertain => Some("uncertain"@),
        _ => None,
    }
}

fn unfinished(status: ActionStatus) -> (text: Option<&'static str>)
    ensures
        match text {
            Some(text) => unfinished_text(status) == Some(text@),
            None => unfinished_text(status) is None,
        },
{
    match status {
        ActionStatus::Pending => Some("pending"),
        ActionStatus::Running => Some("running"),
        ActionStatus::Uncertain => Some("uncertain"),
        _ => None,
    }
}

/// The line on one recorded action.
pub open spec fn entry_text(entry: EntryView) -> Seq<char> {
    "  "@ + entry.id + ": "@ + action_text(entry.action.kind) + " "@ + entry.action.resource_id
        + ": "@ + entry.action.target_path + ": "@
}

fn entry_line(entry: &RecordedEntry) -> (line: String)
    ensures
        line@ == entry_text(entry@),
{
    copy_of("  ").concat(entry.id.as_str()).concat(": ").concat(
        action_name(entry.action.kind()),
    ).concat(" ").concat(entry.action.resource_id().as_str()).concat(": ").concat(
        entry.action.target_path().as_path(),
    ).concat(": ")
}

/// The lines on the recorded actions that are not finished, in order.
pub open spec fn unfinished_lines(entries: Seq<EntryView>) -> Seq<Seq<char>>
    decreases entries.len(),
{
    if entries.len() == 0 {
        Seq::empty()
    } else {
        match unfinished_text(entries.last().action.status) {
            Some(status) => unfinished_lines(entries.drop_last()).push(
                entry_text(entries.last()) + status,
            ),
            None => unfinished_lines(entries.drop_last()),
        }
    }
}

fn push_unfinished(lines: &mut Vec<String>, entries: &Vec<RecordedEntry>)
    ensures
        texts(final(lines)@) == texts(old(lines)@) + unfinished_lines(entry_views(entries@)),
{
    let ghost all = entry_views(entries@);
    let ghost start = texts(lines@);
    let mut i: usize = 0;
    proof {
        assert(all.take(0) =~= Seq::<EntryView>::empty());
        assert(start + Seq::<Seq<char>>::empty() =~= start);
    }
    while i < entries.len()
        invariant
            i <= entries@.len(),
            all == entry_views(entries@),
            start == texts(old(lines)@),
            texts(lines@) == start + unfinished_lines(all.take(i as int)),
        decreases entries.len() - i,
    {
        let ghost before = lines@;
        let entry = &entries[i];
        proof {
            assert(all.take(i + 1).drop_last() =~= all.take(i as int));
            assert(all.take(i + 1).last() == entries@[i as int]@);
        }
        if let Some(status) = unfinished(entry.action.status()) {
            let line = entry_line(entry).concat(status);
            lines.push(line);
            assert(texts(lines@) =~= texts(before).push(line@));
            assert(start + unfinished_lines(all.take(i as int)).push(line@) =~= (start
                + unfinished_lines(all.take(i as int))).push(line@));
        }
        i += 1;
    }
    proof {
        assert(all.take(i as int) =~= all);
    }
}

/// The lines on an operation and its unfinished actions.
pub open spec fn operation_lines(heading: Seq<char>, operation: Option<OperationRecord>) -> Seq<
    Seq<char>,
> {
    match operation {
        Some(operation) => seq![heading + operation.id@] + unfinished_lines(
            entry_views(operation.actions@),
        ),
        None => Seq::empty(),
    }
}

fn push_operation(lines: &mut Vec<String>, heading: &str, operation: &Option<OperationRecord>)
    ensures
        texts(final(lines)@) == texts(old(lines)@) + operation_lines(heading@, *operation),
{
    let ghost start = texts(lines@);
    match operation {
        Some(operation) => {
            let line = copy_of(heading).concat(operation.id.as_str());
            lines.push(line);
            assert(texts(lines@) =~= start.push(line@));
            push_unfinished(lines, &operation.actions);
            assert(texts(lines@) =~= start + (seq![line@] + unfinished_lines(
                entry_views(operation.actions@),
            )));
        },
        None => {
            assert(start + Seq::<Seq<char>>::empty() =~= start);
        },
    }
}

/// The line on a recorded resource and what was observed.
pub open spec fn diff_line(resource: DiffResource) -> Seq<char> {
    resource.resource_id@ + ": "@ + resource.actual.target() + ": "@ + observation_text(
        resource.actual,
    )
}

/// The lines of a drift report.
pub open spec fn diff_lines(report: DiffReport) -> Seq<Seq<char>> {
    seq!["Known resources: "@ + decimal(report.resources@.len())] + Seq::new(
        report.resources@.len(),
        |i: int| diff_line(report.resources@[i]),
    ) + operation_lines("active operation: "@, report.active_operation)
}

/// What was observed of the recorded resources, written out.
pub fn diff(report: &DiffReport) -> (rendered: Rendered)
    ensures
        rendered.out@ == lined(diff_lines(*report)),
        rendered.err@ == Seq::<char>::empty(),
        rendered.code == 0,
{
    let mut lines: Vec<String> = Vec::new();
    lines.push(copy_of("Known resources: ").concat(to_decimal(report.resources.len()).as_str()));
    let ghost head = seq!["Known resources: "@ + decimal(report.resources@.len())];
    let mut i: usize = 0;
    while i < report.resources.len()
        invariant
            i <= report.resources@.len(),
            lines@.len() == i + 1,
            lines@[0]@ == head[0],
            forall|k: int| 0 <= k < i ==> (#[trigger] lines@[k + 1])@ == diff_line(
                report.resources@[k],
            ),
        decreases report.resources.len() - i,
    {
        let resource = &report.resources[i];
        let line = copy_of(resource.resource_id.as_str()).concat(": ").concat(
            resource.actual.target_path().as_path(),
        ).concat(": ").concat(observation(&resource.actual).as_str());
        lines.push(line);
        i += 1;
    }
    let ghost list = Seq::new(report.resources@.len(), |i: int| diff_line(report.resources@[i]));
    proof {
        assert(texts(lines@) =~= head + list) by {
            assert forall|j: int| 0 <= j < lines@.len() implies #[trigger] texts(lines@)[j] == (head
                + list)[j] by {
                if j > 0 {
                    assert(lines@[(j - 1) + 1]@ == diff_line(report.resources@[j - 1]));
                }
            }
        }
    }
    push_operation(&mut lines, "active operation: ", &report.active_operation);
    Rendered { out: lined_texts(&lines), err: String::new(), code: 0 }
}

/// The lines of a list of declared profiles.
pub open spec fn profile_list_lines(report: ProfileListReport) -> Seq<Seq<char>> {
    seq!["Profiles: "@ + decimal(report.profiles@.len())] + Seq::new(
        report.profiles@.len(),
        |i: int| report.profiles@[i].id@,
    )
}

/// The declared profiles, written out.
pub fn profile_list(report: &ProfileListReport) -> (text: String)
    ensures
        text@ == lined(profile_list_lines(*report)),
{
    let mut lines: Vec<String> = Vec::new();
    lines.push(copy_of("Profiles: ").concat(to_decimal(report.profiles.len()).as_str()));
    let mut i: usize = 0;
    while i < report.profiles.len()
        invariant
            i <= report.profiles@.len(),
            lines@.len() == i + 1,
            lines@[0]@ == "Profiles: "@ + decimal(report.profiles@.len()),
            forall|k: int| 0 <= k < i ==> (#[trigger] lines@[k + 1])@ == report.profiles@[k].id@,
        decreases report.profiles.len() - i,
    {
        lines.push(copy_of(report.profiles[i].id.as_str()));
        i += 1;
    }
    proof {
        let whole = seq!["Profiles: "@ + decimal(report.profiles@.len())] + Seq::new(
            report.profiles@.len(),
            |i: int| report.profiles@[i].id@,
        );
        assert forall|j: int| 0 <= j < lines@.len() implies #[trigger] texts(lines@)[j]
            == whole[j] by {
            if j > 0 {
                assert(lines@[(j - 1) + 1]@ == report.profiles@[j - 1].id@);
            }
        }
        assert(texts(lines@) =~= whole);
    }
    lined_texts(&lines)
}

/// The line on a declared resource.
pub open spec fn declared_line(resource: DeclaredResource) -> Seq<char> {
    "resource "@ + resource.resource_id@ + ": file link: store "@ + resource.store_id@
        + ": source "@ + resource.source_path@ + ": target "@ + resource.target_path@
}

/// The lines on a declared profile.
pub open spec fn profile_lines(report: ProfileShowReport) -> Seq<Seq<char>> {
    let profile = report.profile;
    seq!["profile: "@ + profile.id@] + Seq::new(
        profile.includes@.len(),
        |i: int| "include: "@ + profile.includes@[i]@,
    ) + Seq::new(profile.resources@.len(), |i: int| declared_line(profile.resources@[i]))
}

/// One declared profile, written out.
pub fn profile_show(report: &ProfileShowReport) -> (text: String)
    ensures
        text@ == lined(profile_lines(*report)),
{
    let profile = &report.profile;
    let mut lines: Vec<String> = Vec::new();
    lines.push(copy_of("profile: ").concat(profile.id.as_str()));
    let ghost whole = profile_lines(*report);
    let included = profile.includes.len();
    let mut i: usize = 0;
    while i < included
        invariant
            i <= included,
            included == profile.includes@.len(),
            whole == profile_lines(*report),
            *profile == report.profile,
            lines@.len() == i + 1,
            forall|k: int| 0 <= k < lines@.len() ==> (#[trigger] lines@[k])@ == whole[k],
        decreases included - i,
    {
        lines.push(copy_of("include: ").concat(profile.includes[i].as_str()));
        i += 1;
    }
    let mut j: usize = 0;
    while j < profile.resources.len()
        invariant
            j <= profile.resources@.len(),
            included == profile.includes@.len(),
            whole == profile_lines(*report),
            *profile == report.profile,
            lines@.len() == j + included + 1,
            forall|k: int| 0 <= k < lines@.len() ==> (#[trigger] lines@[k])@ == whole[k],
        decreases profile.resources.len() - j,
    {
        let resource = &profile.resources[j];
        let line = copy_of("resource ").concat(resource.resource_id.as_str()).concat(
            ": file link: store ",
        ).concat(resource.store_id.as_str()).concat(": source ").concat(
            resource.source_path.as_str(),
        ).concat(": target ").concat(resource.target_path.as_str());
        lines.push(line);
        j += 1;
    }
    assert(texts(lines@) =~= whole);
    lined_texts(&lines)
}

/// The line on a desired resource.
pub open spec fn desired_line(effect: EffectView) -> Seq<char> {
    match effect {
        EffectView::Link(link) => link.resource_id + ": file link: source "@ + link.source_path
            + ": target "@ + link.target_path + ": operation link"@,
        EffectView::Copy(copy) => copy.resource_id + ": file copy: source "@ + copy.source_path
            + ": target "@ + copy.target_path + ": operation copy"@,
    }
}

/// The line on a desired resource.
pub fn render_resolved_resource(resource: &ResolvedResource) -> (line: String)
    ensures
        line@ == desired_line(resource@),
{
    match resource {
        ResolvedResource::FileLink(resource) => copy_of(resource.resource_id().as_str()).concat(
            ": file link: source ",
        ).concat(resource.source_path().as_path()).concat(": target ").concat(
            resource.target_path().as_path(),
        ).concat(": operation link"),
        ResolvedResource::FileCopy(resource) => copy_of(resource.resource_id().as_str()).concat(
            ": file copy: source ",
        ).concat(resource.source_path().as_path()).concat(": target ").concat(
            resource.target_path().as_path(),
        ).concat(": operation copy"),
    }
}

/// The lines of a list of desired resources.
pub open spec fn desired_resources_lines(report: DesiredResourcesReport) -> Seq<Seq<char>> {
    seq![
        "Desired resources for "@ + report.root_profile@ + ": "@ + decimal(report.resources@.len()),
    ] + Seq::new(report.resources@.len(), |i: int| desired_line(report.resources@[i]@))
}

/// The desired resources, written out.
pub fn desired_resources(report: &DesiredResourcesReport) -> (text: String)
    ensures
        text@ == lined(desired_resources_lines(*report)),
{
    let mut lines: Vec<String> = Vec::new();
    lines.push(
        copy_of("Desired resources for ").concat(report.root_profile.as_str()).concat(
            ": ",
        ).concat(to_decimal(report.resources.len()).as_str()),
    );
    let ghost whole = seq![
        "Desired resources for "@ + report.root_profile@ + ": "@ + decimal(
            report.resources@.len(),
        ),
    ] + Seq::new(report.resources@.len(), |i: int| desired_line(report.resources@[i]@));
    let mut i: usize = 0;
    while i < report.resources.len()
        invariant
            i <= report.resources@.len(),
            whole.len() == report.resources@.len() + 1,
            forall|k: int|
                0 <= k < report.resources@.len() ==> #[trigger] whole[k + 1] == desired_line(
                    report.resources@[k]@,
                ),
            lines@.len() == i + 1,
            forall|k: int| 0 <= k < lines@.len() ==> (#[trigger] lines@[k])@ == whole[k],
        decreases report.resources.len() - i,
    {
        lines.push(render_resolved_resource(&report.resources[i]));
        assert(whole[i + 1] == desired_line(report.resources@[i as int]@));
        i += 1;
    }
    assert(texts(lines@) =~= whole);
    lined_texts(&lines)
}

/// One desired resource, written out.
pub fn desired_resource(root_profile: &ProfileId, resource: &ResolvedResource) -> (text: String)
    ensures
        text@ == lined(
            seq!["Desired resource for "@ + root_profile@ + ":"@, desired_line(resource@)],
        ),
{
    let mut lines: Vec<String> = Vec::new();
    lines.push(copy_of("Desired resource for ").concat(root_profile.as_str()).concat(":"));
    lines.push(render_resolved_resource(resource));
    assert(texts(lines@) =~= seq![
        "Desired resource for "@ + root_profile@ + ":"@,
        desired_line(resource@),
    ]);
    lined_texts(&lines)
}

/// The line on a recorded resource.
pub open spec fn known_line(effect: EffectView) -> Seq<char> {
    match effect {
        EffectView::Link(link) => link.resource_id + ": file link: source "@ + link.source_path
            + ": target "@ + link.target_path,
        EffectView::Copy(copy) => copy.resource_id + ": file copy: source "@ + copy.source_path
            + ": target "@ + copy.target_path + ": content "@ + copy.content_fingerprint,
    }
}

/// The line on a recorded resource.
pub fn render_known_resource(resource: &KnownResource) -> (line: String)
    ensures
        line@ == known_line(resource@),
{
    match resource {
        KnownResource::FileLink(resource) => copy_of(resource.resource_id().as_str()).concat(
            ": file link: source ",
        ).concat(resource.source_path().as_path()).concat(": target ").concat(
            resource.target_path().as_path(),
        ),
        KnownResource::FileCopy(resource) => copy_of(resource.resource_id().as_str()).concat(
            ": file copy: source ",
        ).concat(resource.source_path().as_path()).concat(": target ").concat(
            resource.target_path().as_path(),
        ).concat(": content ").concat(resource.content_fingerprint().as_str()),
    }
}

/// The lines of a list of recorded resources.
pub open spec fn known_resources_lines(report: KnownResourcesReport) -> Seq<Seq<char>> {
    seq!["Known resources: "@ + decimal(report.resources@.len())] + Seq::new(
        report.resources@.len(),
        |i: int| known_line(report.resources@[i]@),
    )
}

/// The recorded resources, written out.
pub fn known_resources(report: &KnownResourcesReport) -> (text: String)
    ensures
        text@ == lined(known_resources_lines(*report)),
{
    let mut lines: Vec<String> = Vec::new();
    lines.push(copy_of("Known resources: ").concat(to_decimal(report.resources.len()).as_str()));
    let ghost whole = seq!["Known resources: "@ + decimal(report.resources@.len())] + Seq::new(
        report.resources@.len(),
        |i: int| known_line(report.resources@[i]@),
    );
    let mut i: usize = 0;
    while i < report.resources.len()
        invariant
            i <= report.resources@.len(),
            whole.len() == report.resources@.len() + 1,
            forall|k: int|
                0 <= k < report.resources@.len() ==> #[trigger] whole[k + 1] == known_line(
                    report.resources@[k]@,
                ),
            lines@.len() == i + 1,
            forall|k: int| 0 <= k < lines@.len() ==> (#[trigger] lines@[k])@ == whole[k],
        decreases report.resources.len() - i,
    {
        lines.push(render_known_resource(&report.resources[i]));
        assert(whole[i + 1] == known_line(report.resources@[i as int]@));
        i += 1;
    }
    assert(texts(lines@) =~= whole);
    lined_texts(&lines)
}

/// One recorded resource, written out.
pub fn known_resource(resource: &KnownResource) -> (text: String)
    ensures
        text@ == lined(seq![known_line(resource@)]),
{
    let mut lines: Vec<String> = Vec::new();
    lines.push(render_known_resource(resource));
    assert(texts(lines@) =~= seq![known_line(resource@)]);
    lined_texts(&lines)
}

/// A query error, written out.
pub open spec fn query_error_text(error: QueryError) -> Seq<char> {
    match error {
        QueryError::ConfigurationRead { path, message } => "cannot read configuration "@ + path@
            + ": "@ + message@,
        QueryError::Configuration { message } => "invalid environment configuration: "@ + message@,
        QueryError::Resolution(error) => error.message(),
        QueryError::State(error) => error.message(),
        QueryError::Inspection { message } => message@,
        QueryError::ConfigField(field) => "unsupported configuration field: "@ + field@,
    }
}

/// A query error, written out.
pub fn query_error(error: &QueryError) -> (text: String)
    ensures
        text@ == query_error_text(*error),
{
    match error {
        QueryError::ConfigurationRead { path, message } => copy_of(
            "cannot read configuration ",
        ).concat(path.as_path()).concat(": ").concat(message.as_str()),
        QueryError::Configuration { message } => copy_of(
            "invalid environment configuration: ",
        ).concat(message.as_str()),
        QueryError::Resolution(error) => error.to_text(),
        QueryError::State(error) => error.to_text(),
        QueryError::Inspection { message } => copy_of(message.as_str()),
        QueryError::ConfigField(field) => copy_of("unsupported configuration field: ").concat(
            field.as_str(),
        ),
    }
}

/// How a resource's desired and recorded definitions relate.
pub open spec fn relation_of(resource: StatusResource) -> StatusRelationship {
    relates(desired_effect(resource.desired), known_effect(resource.known))
}

/// The written name of a relation.
pub open spec fn relation_text(relationship: StatusRelationship) -> Seq<char> {
    match relationship {
        StatusRelationship::DesiredOnly => "desired_only"@,
        StatusRelationship::KnownOnly => "known_only"@,
        StatusRelationship::DefinitionChanged => "definition_changed"@,
        StatusRelationship::DefinitionsMatch => "definitions_match"@,
    }
}

fn relation_name(relationship: StatusRelationship) -> (name: &'static str)
    ensures
        name@ == relation_text(relationship),
{
    match relationship {
        StatusRelationship::DesiredOnly => "desired_only",
        StatusRelationship::KnownOnly => "known_only",
        StatusRelationship::DefinitionChanged => "definition_changed",
        StatusRelationship::DefinitionsMatch => "definitions_match",
    }
}

/// What an observation is compared with: only a recorded resource is compared with its record.
pub open spec fn comparison_text(relationship: StatusRelationship) -> Seq<char> {
    if relationship is DesiredOnly {
        "desired-to-actual"@
    } else {
        "known-to-actual"@
    }
}

/// What an observation shows. Only a recorded resource can have drifted.
pub open spec fn shown_text(relationship: StatusRelationship, expected: Option<Seq<char>>) -> Seq<
    char,
> {
    if relationship is DesiredOnly {
        "desired_target_observation"@
    } else {
        match expected {
            None => "drifted"@,
            Some(category) => if relationship is DefinitionsMatch {
                "recorded_and_expected"@
            } else {
                category
            },
        }
    }
}

/// What a missing observation is reported under.
pub fn unavailable_status_category(resource: &StatusResource) -> (category: (
    &'static str,
    &'static str,
))
    requires
        resource.desired is Some || resource.known is Some,
    ensures
        category.0@ == comparison_text(relation_of(*resource)),
        category.1@ == shown_text(relation_of(*resource), None),
{
    match resource.relationship() {
        StatusRelationship::DesiredOnly => ("desired-to-actual", "desired_target_observation"),
        _ => ("known-to-actual", "drifted"),
    }
}

fn available_status_category(resource: &StatusResource, actual: &ActualResource) -> (category: (
    &'static str,
    &'static str,
))
    requires
        resource.desired is Some || resource.known is Some,
    ensures
        category.0@ == comparison_text(relation_of(*resource)),
        category.1@ == shown_text(relation_of(*resource), expected_text(*actual)),
{
    match resource.relationship() {
        StatusRelationship::DesiredOnly => ("desired-to-actual", "desired_target_observation"),
        relationship => match expected_category(actual) {
            None => ("known-to-actual", "drifted"),
            Some(category) => match relationship {
                StatusRelationship::DefinitionsMatch => ("known-to-actual", "recorded_and_expected"),
                _ => ("known-to-actual", category),
            },
        },
    }
}

/// The first line on a resource: how its definitions relate.
pub open spec fn relation_line(resource: StatusResource) -> Seq<char> {
    resource.resource_id@ + ": desired-to-known: "@ + relation_text(relation_of(resource))
}

/// The second line on a resource: what its target shows.
pub open spec fn actual_line(resource: StatusResource) -> Seq<char> {
    let relationship = relation_of(resource);
    match resource.actual {
        StatusActual::Available(actual) => "  "@ + comparison_text(relationship) + ": "@
            + shown_text(relationship, expected_text(actual)) + ": "@ + actual.target() + ": "@
            + observation_text(actual),
        StatusActual::Unavailable(StatusUnavailable::InspectorInitialization) => "  "@
            + comparison_text(relationship) + ": "@ + shown_text(relationship, None)
            + ": unavailable: inspector initialization failed"@,
        StatusActual::Unavailable(StatusUnavailable::Observation { message }) => "  "@
            + comparison_text(relationship) + ": "@ + shown_text(relationship, None)
            + ": unavailable: "@ + message@,
    }
}

/// The lines on resources, two for each, in order.
pub open spec fn resource_lines(resources: Seq<StatusResource>) -> Seq<Seq<char>>
    decreases resources.len(),
{
    if resources.len() == 0 {
        Seq::empty()
    } else {
        resource_lines(resources.drop_last()).push(relation_line(resources.last())).push(
            actual_line(resources.last()),
        )
    }
}

/// The lines on why nothing could be observed.
pub open spec fn inspection_lines(error: Option<String>) -> Seq<Seq<char>> {
    match error {
        Some(message) => seq!["inspection unavailable: "@ + message@],
        None => Seq::empty(),
    }
}

/// The lines of a status report.
pub open spec fn status_lines(report: StatusReport) -> Seq<Seq<char>> {
    (match report.desired {
        StatusDesired::Available { root_profile, resources } => seq![
            "status profile: "@ + root_profile@,
        ] + resource_lines(resources@),
        StatusDesired::Unavailable(error) => seq![
            "desired_unavailable: "@ + query_error_text(error),
        ],
    }) + inspection_lines(report.inspection_initialization_error) + operation_lines(
        "active_operation: "@,
        report.active_operation,
    )
}

/// Whether every resource of a report is desired or recorded.
pub open spec fn reports_effects(report: StatusReport) -> bool {
    report.desired matches StatusDesired::Available { resources, .. } ==> forall|i: int|
        0 <= i < resources@.len() ==> (#[trigger] resources@[i]).desired is Some
            || resources@[i].known is Some
}

fn status_actual(resource: &StatusResource) -> (line: String)
    requires
        resource.desired is Some || resource.known is Some,
    ensures
        line@ == actual_line(*resource),
{
    match &resource.actual {
        StatusActual::Available(actual) => {
            let (comparison, category) = available_status_category(resource, actual);
            copy_of("  ").concat(comparison).concat(": ").concat(category).concat(": ").concat(
                actual.target_path().as_path(),
            ).concat(": ").concat(observation(actual).as_str())
        },
        StatusActual::Unavailable(StatusUnavailable::InspectorInitialization) => {
            let (comparison, category) = unavailable_status_category(resource);
            copy_of("  ").concat(comparison).concat(": ").concat(category).concat(
                ": unavailable: inspector initialization failed",
            )
        },
        StatusActual::Unavailable(StatusUnavailable::Observation { message }) => {
            let (comparison, category) = unavailable_status_category(resource);
            copy_of("  ").concat(comparison).concat(": ").concat(category).concat(
                ": unavailable: ",
            ).concat(message.as_str())
        },
    }
}

/// What is desired, recorded and observed, written out.
pub fn status(report: &StatusReport) -> (text: String)
    requires
        reports_effects(*report),
    ensures
        text@ == lined(status_lines(*report)),
{
    let mut lines: Vec<String> = Vec::new();
    match &report.desired {
        StatusDesired::Available { root_profile, resources } => {
            lines.push(copy_of("status profile: ").concat(root_profile.as_str()));
            let ghost head = seq!["status profile: "@ + root_profile@];
            let ghost all = resources@;
            let mut i: usize = 0;
            proof {
                assert(all.take(0) =~= Seq::<StatusResource>::empty());
                assert(texts(lines@) =~= head + resource_lines(all.take(0)));
            }
            while i < resources.len()
                invariant
                    i <= resources@.len(),
                    all == resources@,
                    forall|k: int|
                        0 <= k < all.len() ==> (#[trigger] all[k]).desired is Some
                            || all[k].known is Some,
                    texts(lines@) == head + resource_lines(all.take(i as int)),
                decreases resources.len() - i,
            {
                let ghost before = texts(lines@);
                let resource = &resources[i];
                assert(all[i as int].desired is Some || all[i as int].known is Some);
                let first = copy_of(resource.resource_id.as_str()).concat(
                    ": desired-to-known: ",
                ).concat(relation_name(resource.relationship()));
                let second = status_actual(resource);
                lines.push(first);
                lines.push(second);
                proof {
                    assert(all.take(i + 1).drop_last() =~= all.take(i as int));
                    assert(all.take(i + 1).last() == all[i as int]);
                    assert(texts(lines@) =~= before.push(first@).push(second@));
                    assert(head + resource_lines(all.take(i + 1)) =~= (head + resource_lines(
                        all.take(i as int),
                    )).push(first@).push(second@));
                }
                i += 1;
            }
            assert(all.take(i as int) =~= all);
        },
        StatusDesired::Unavailable(error) => {
            lines.push(copy_of("desired_unavailable: ").concat(query_error(error).as_str()));
            assert(texts(lines@) =~= seq!["desired_unavailable: "@ + query_error_text(*error)]);
        },
    }
    let ghost top = texts(lines@);
    match &report.inspection_initialization_error {
        Some(message) => {
            let line = copy_of("inspection unavailable: ").concat(message.as_str());
            lines.push(line);
            assert(texts(lines@) =~= top + seq![line@]);
        },
        None => {
            assert(top + Seq::<Seq<char>>::empty() =~= top);
        },
    }
    push_operation(&mut lines, "active_operation: ", &report.active_operation);
    lined_texts(&lines)
}

/// A resource that is only desired is never reported as drifted from a record.
pub proof fn desired_only_resource_is_not_drift(resource: StatusResource)
    requires
        resource.desired is Some,
        resource.known is None,
    ensures
        comparison_text(relation_of(resource)) == "desired-to-actual"@,
        forall|expected: Option<Seq<char>>| #[trigger]
            shown_text(relation_of(resource), expected) == "desired_target_observation"@,
{
}

/// The paths that an action's preconditions are about, in order.
pub open spec fn condition_paths(conditions: Seq<ConditionView>) -> Seq<Seq<char>> {
    Seq::new(conditions.len(), |i: int| conditions[i].target_path())
}

/// The resource of an action, with the one that it replaces.
pub open spec fn identity_text(action: ActionView) -> Seq<char> {
    match action.replaced_resource_id() {
        Some(old_id) => old_id + " -> "@ + action.resource_id(),
        None => action.resource_id(),
    }
}

/// The line on a planned action.
pub open spec fn planned_line(action: ActionView) -> Seq<char> {
    action_text(action.kind()) + " "@ + identity_text(action) + ": "@ + join(
        condition_paths(action.preconditions()),
        ", "@,
    ) + ": "@ + reason_text(action.reason())
}

fn to_planned_line(action: &PlannedResourceAction) -> (line: String)
    ensures
        line@ == planned_line(action@),
{
    let conditions = action.preconditions();
    let mut paths: Vec<String> = Vec::new();
    let mut i: usize = 0;
    while i < conditions.len()
        invariant
            i <= conditions@.len(),
            paths@.len() == i,
            forall|k: int| 0 <= k < i ==> (#[trigger] paths@[k])@ == conditions@[k]@.target_path(),
        decreases conditions.len() - i,
    {
        paths.push(copy_of(conditions[i].target_path().as_path()));
        i += 1;
    }
    assert(texts(paths@) =~= condition_paths(condition_views(conditions@)));
    let identity = match action.replaced_resource_id() {
        Some(old_id) => copy_of(old_id.as_str()).concat(" -> ").concat(
            action.resource_id().as_str(),
        ),
        None => copy_of(action.resource_id().as_str()),
    };
    copy_of(action_name(action.kind())).concat(" ").concat(identity.as_str()).concat(": ").concat(
        join_texts(&paths, ", ").as_str(),
    ).concat(": ").concat(reason(action.reason()))
}

/// The texts of identities, in order.
pub open spec fn id_texts(ids: Seq<FullyQualifiedResourceId>) -> Seq<Seq<char>> {
    Seq::new(ids.len(), |i: int| ids[i]@)
}

/// An observation of the target of a copy, field by field.
pub open spec fn copy_observation_fields(observation: CopyTargetObservation) -> Seq<char> {
    match observation {
        CopyTargetObservation::Missing => "Missing"@,
        CopyTargetObservation::ExpectedCopy { content_fingerprint } =>
            "ExpectedCopy { content_fingerprint: ContentFingerprint(\""@ + content_fingerprint@
            + "\") }"@,
        CopyTargetObservation::OtherRegularFile { content_fingerprint } =>
            "OtherRegularFile { content_fingerprint: ContentFingerprint(\""@
            + content_fingerprint@ + "\") }"@,
        CopyTargetObservation::OtherEntry { kind } => "OtherEntry { kind: "@ + kind@ + " }"@,
        CopyTargetObservation::UnsafePath { parent_safety } => "UnsafePath { parent_safety: "@
            + parent_safety@ + " }"@,
    }
}

fn to_copy_observation_fields(observation: &CopyTargetObservation) -> (text: String)
    ensures
        text@ == copy_observation_fields(*observation),
{
    match observation {
        CopyTargetObservation::Missing => copy_of("Missing"),
        CopyTargetObservation::ExpectedCopy { content_fingerprint } => copy_of(
            "ExpectedCopy { content_fingerprint: ContentFingerprint(\"",
        ).concat(content_fingerprint.as_str()).concat("\") }"),
        CopyTargetObservation::OtherRegularFile { content_fingerprint } => copy_of(
            "OtherRegularFile { content_fingerprint: ContentFingerprint(\"",
        ).concat(content_fingerprint.as_str()).concat("\") }"),
        CopyTargetObservation::OtherEntry { kind } => copy_of("OtherEntry { kind: ").concat(
            kind.as_str(),
        ).concat(" }"),
        CopyTargetObservation::UnsafePath { parent_safety } => copy_of(
            "UnsafePath { parent_safety: ",
        ).concat(parent_safety.as_str()).concat(" }"),
    }
}

/// The line on an obstacle that planning met.
pub open spec fn diagnostic_line(diagnostic: Diagnostic) -> Seq<char> {
    match diagnostic {
        Diagnostic::TargetCollision { target_path, resource_ids } => "conflict: target "@
            + target_path@ + " claimed by "@ + join(id_texts(resource_ids@), ", "@),
        Diagnostic::UnexpectedTarget { resource_id, target_path, observation } => "conflict: "@
            + resource_id@ + ": "@ + target_path@ + ": "@ + link_observation_text(observation),
        Diagnostic::UnexpectedCopyTarget { resource_id, target_path, observation } => "conflict: "@
            + resource_id@ + ": "@ + target_path@ + ": "@ + copy_observation_fields(observation),
        Diagnostic::MissingActualObservation { target_path } =>
            "blocked: missing observation for "@ + target_path@,
        Diagnostic::UnsupportedPlatform { resource_id, action_kind } => "blocked: "@ + resource_id@
            + ": unsupported "@ + action_text(action_kind),
        Diagnostic::UnsupportedResourceEffect { resource_id, target_path, effect } => "blocked: "@
            + resource_id@ + ": "@ + target_path@ + ": "@ + effect@
            + " planning is not implemented"@,
        Diagnostic::IdentityHandoffPrecondition {
            old_resource_id,
            new_resource_id,
            target_path,
            observation,
        } => "conflict: "@ + old_resource_id@ + " -> "@ + new_resource_id@ + ": "@ + target_path@
            + ": "@ + link_observation_text(observation),
    }
}

fn to_diagnostic_line(diagnostic: &Diagnostic) -> (line: String)
    ensures
        line@ == diagnostic_line(*diagnostic),
{
    match diagnostic {
        Diagnostic::TargetCollision { target_path, resource_ids } => {
            let mut ids: Vec<String> = Vec::new();
            let mut i: usize = 0;
            while i < resource_ids.len()
                invariant
                    i <= resource_ids@.len(),
                    ids@.len() == i,
                    forall|k: int| 0 <= k < i ==> (#[trigger] ids@[k])@ == resource_ids@[k]@,
                decreases resource_ids.len() - i,
            {
                ids.push(copy_of(resource_ids[i].as_str()));
                i += 1;
            }
            assert(texts(ids@) =~= id_texts(resource_ids@));
            copy_of("conflict: target ").concat(target_path.as_path()).concat(
                " claimed by ",
            ).concat(join_texts(&ids, ", ").as_str())
        },
        Diagnostic::UnexpectedTarget { resource_id, target_path, observation } => copy_of(
            "conflict: ",
        ).concat(resource_id.as_str()).concat(": ").concat(target_path.as_path()).concat(
            ": ",
        ).concat(link_observation(observation).as_str()),
        Diagnostic::UnexpectedCopyTarget { resource_id, target_path, observation } => copy_of(
            "conflict: ",
        ).concat(resource_id.as_str()).concat(": ").concat(target_path.as_path()).concat(
            ": ",
        ).concat(to_copy_observation_fields(observation).as_str()),
        Diagnostic::MissingActualObservation { target_path } => copy_of(
            "blocked: missing observation for ",
        ).concat(target_path.as_path()),
        Diagnostic::UnsupportedPlatform { resource_id, action_kind } => copy_of(
            "blocked: ",
        ).concat(resource_id.as_str()).concat(": unsupported ").concat(action_name(*action_kind)),
        Diagnostic::UnsupportedResourceEffect { resource_id, target_path, effect } => copy_of(
            "blocked: ",
        ).concat(resource_id.as_str()).concat(": ").concat(target_path.as_path()).concat(
            ": ",
        ).concat(effect.as_str()).concat(" planning is not implemented"),
        Diagnostic::IdentityHandoffPrecondition {
            old_resource_id,
            new_resource_id,
            target_path,
            observation,
        } => copy_of("conflict: ").concat(old_resource_id.as_str()).concat(" -> ").concat(
            new_resource_id.as_str(),
        ).concat(": ").concat(target_path.as_path()).concat(": ").concat(
            link_observation(observation).as_str(),
        ),
    }
}

/// The lines on the actions of a plan, in order.
pub open spec fn planned_lines(plan: PlanView) -> Seq<Seq<char>> {
    Seq::new(plan.actions.len(), |i: int| planned_line(plan.actions[i]))
}

/// The lines on the obstacles of a plan, in order.
pub open spec fn diagnostic_lines(plan: PlanView) -> Seq<Seq<char>> {
    Seq::new(plan.diagnostics.len(), |i: int| diagnostic_line(plan.diagnostics[i]))
}

/// The exit code of a plan.
pub open spec fn plan_code(plan: PlanView) -> u8 {
    if plan.executable() {
        0
    } else {
        2
    }
}

fn push_planned(lines: &mut Vec<String>, plan: &Plan)
    ensures
        texts(final(lines)@) == texts(old(lines)@) + planned_lines(plan@),
{
    let actions = plan.resource_actions();
    let ghost start = texts(lines@);
    let mut i: usize = 0;
    while i < actions.len()
        invariant
            i <= actions@.len(),
            start == texts(old(lines)@),
            start.len() == old(lines)@.len(),
            lines@.len() == start.len() + i,
            forall|k: int| 0 <= k < start.len() ==> (#[trigger] lines@[k])@ == start[k],
            forall|k: int|
                0 <= k < i ==> (#[trigger] lines@[start.len() + k])@ == planned_line(actions@[k]@),
        decreases actions.len() - i,
    {
        let ghost before = lines@;
        lines.push(to_planned_line(&actions[i]));
        proof {
            assert forall|k: int| 0 <= k < start.len() implies (#[trigger] lines@[k])@
                == start[k] by {
                assert(lines@[k] == before[k]);
            }
            assert forall|k: int| 0 <= k < i + 1 implies (#[trigger] lines@[start.len() + k])@
                == planned_line(actions@[k]@) by {
                if k < i {
                    assert(lines@[start.len() + k] == before[start.len() + k]);
                }
            }
        }
        i += 1;
    }
    proof {
        let whole = start + planned_lines(plan@);
        assert forall|j: int| 0 <= j < lines@.len() implies #[trigger] texts(lines@)[j]
            == whole[j] by {
            if j >= start.len() {
                let k = j - start.len();
                assert(lines@[start.len() + k]@ == planned_line(actions@[k]@));
                assert(plan@.actions[k] == actions@[k]@);
            } else {
                assert(lines@[j]@ == start[j]);
            }
        }
        assert(texts(lines@) =~= whole);
    }
}

fn to_diagnostic_lines(plan: &Plan) -> (lines: Vec<String>)
    ensures
        texts(lines@) == diagnostic_lines(plan@),
{
    let diagnostics = plan.diagnostics();
    let mut lines: Vec<String> = Vec::new();
    let mut i: usize = 0;
    while i < diagnostics.len()
        invariant
            i <= diagnostics@.len(),
            lines@.len() == i,
            forall|k: int| 0 <= k < i ==> (#[trigger] lines@[k])@ == diagnostic_line(diagnostics@[k]),
        decreases diagnostics.len() - i,
    {
        lines.push(to_diagnostic_line(&diagnostics[i]));
        i += 1;
    }
    assert(texts(lines@) =~= diagnostic_lines(plan@));
    lines
}

/// The actions and the obstacles of a plan, written out.
pub fn planned(plan: &Plan) -> (rendered: Rendered)
    ensures
        rendered.out@ == lined(planned_lines(plan@)),
        rendered.err@ == lined(diagnostic_lines(plan@)),
        rendered.code == plan_code(plan@),
{
    let mut lines: Vec<String> = Vec::new();
    push_planned(&mut lines, plan);
    assert(texts(lines@) =~= planned_lines(plan@));
    Rendered {
        out: lined_texts(&lines),
        err: lined_texts(&to_diagnostic_lines(plan)),
        code: if plan.is_executable() {
            0
        } else {
            2
        },
    }
}

/// The word for whether a plan may be executed.
pub open spec fn executable_text(plan: PlanView) -> Seq<char> {
    if plan.executable() {
        "executable"@
    } else {
        "blocked"@
    }
}

fn executable_name(plan: &Plan) -> (name: &'static str)
    ensures
        name@ == executable_text(plan@),
{
    if plan.is_executable() {
        "executable"
    } else {
        "blocked"
    }
}

/// A plan for a profile, written out.
pub fn plan(report: &PlanReport) -> (rendered: Rendered)
    ensures
        rendered.out@ == lined(
            seq![
                "profile "@ + report.profile@ + ": "@ + executable_text(report.plan@) + " plan"@,
            ] + planned_lines(report.plan@),
        ),
        rendered.err@ == lined(diagnostic_lines(report.plan@)),
        rendered.code == plan_code(report.plan@),
{
    let mut lines: Vec<String> = Vec::new();
    let line = copy_of("profile ").concat(report.profile.as_str()).concat(": ").concat(
        executable_name(&report.plan),
    ).concat(" plan");
    lines.push(line);
    assert(texts(lines@) =~= seq![line@]);
    push_planned(&mut lines, &report.plan);
    let rest = planned(&report.plan);
    Rendered { out: lined_texts(&lines), err: rest.err, code: rest.code }
}

/// A path, written out.
pub fn config_path(path: &str) -> (rendered: Rendered)
    ensures
        rendered.out@ == path@ + "\n"@,
        rendered.err@ == Seq::<char>::empty(),
        rendered.code == 0,
{
    Rendered { out: copy_of(path).concat("\n"), err: String::new(), code: 0 }
}

/// The line on the default profile.
pub open spec fn default_profile_line(profile: Option<String>) -> Seq<char> {
    match profile {
        Some(profile) => "default_profile: "@ + profile@,
        None => "default_profile: <unset>"@,
    }
}

fn to_default_profile_line(profile: &Option<String>) -> (line: String)
    ensures
        line@ == default_profile_line(*profile),
{
    match profile {
        Some(profile) => copy_of("default_profile: ").concat(profile.as_str()),
        None => copy_of("default_profile: <unset>"),
    }
}

/// The line on a store.
pub open spec fn store_line(store: StorePath) -> Seq<char> {
    "stores."@ + store.store_id@ + ".properties.path: "@ + store.path@
}

/// A configuration, written out.
pub fn config_list(report: &ConfigurationReport) -> (rendered: Rendered)
    ensures
        rendered.out@ == lined(
            seq![
                "configuration: "@ + report.configuration_path@,
                default_profile_line(report.default_profile),
            ] + Seq::new(report.stores@.len(), |i: int| store_line(report.stores@[i])),
        ),
        rendered.err@ == Seq::<char>::empty(),
        rendered.code == 0,
{
    let mut lines: Vec<String> = Vec::new();
    lines.push(copy_of("configuration: ").concat(report.configuration_path.as_path()));
    lines.push(to_default_profile_line(&report.default_profile));
    let ghost whole = seq![
        "configuration: "@ + report.configuration_path@,
        default_profile_line(report.default_profile),
    ] + Seq::new(report.stores@.len(), |i: int| store_line(report.stores@[i]));
    let mut i: usize = 0;
    while i < report.stores.len()
        invariant
            i <= report.stores@.len(),
            whole.len() == report.stores@.len() + 2,
            forall|k: int|
                0 <= k < report.stores@.len() ==> #[trigger] whole[k + 2] == store_line(
                    report.stores@[k],
                ),
            lines@.len() == i + 2,
            forall|k: int| 0 <= k < lines@.len() ==> (#[trigger] lines@[k])@ == whole[k],
        decreases report.stores.len() - i,
    {
        let store = &report.stores[i];
        lines.push(
            copy_of("stores.").concat(store.store_id.as_str()).concat(
                ".properties.path: ",
            ).concat(store.path.as_path()),
        );
        assert(whole[i + 2] == store_line(report.stores@[i as int]));
        i += 1;
    }
    assert(texts(lines@) =~= whole);
    Rendered { out: lined_texts(&lines), err: String::new(), code: 0 }
}

/// The line on one configuration field.
pub open spec fn value_line(value: ConfigurationValue, field: Seq<char>) -> Seq<char> {
    match value {
        ConfigurationValue::DefaultProfile(profile) => default_profile_line(profile),
        ConfigurationValue::StorePath(path) => field + ": "@ + path@,
    }
}

/// One configuration field, written out.
pub fn config_get(report: &ConfigurationValueReport, field: &str) -> (rendered: Rendered)
    ensures
        rendered.out@ == lined(
            seq![
                "configuration: "@ + report.configuration_path@,
                value_line(report.value, field@),
            ],
        ),
        rendered.err@ == Seq::<char>::empty(),
        rendered.code == 0,
{
    let mut lines: Vec<String> = Vec::new();
    lines.push(copy_of("configuration: ").concat(report.configuration_path.as_path()));
    lines.push(
        match &report.value {
            ConfigurationValue::DefaultProfile(profile) => to_default_profile_line(profile),
            ConfigurationValue::StorePath(path) => copy_of(field).concat(": ").concat(
                path.as_path(),
            ),
        },
    );
    assert(texts(lines@) =~= seq![
        "configuration: "@ + report.configuration_path@,
        value_line(report.value, field@),
    ]);
    Rendered { out: lined_texts(&lines), err: String::new(), code: 0 }
}

} // verus!
