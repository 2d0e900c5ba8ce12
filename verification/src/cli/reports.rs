//! What a written report holds: one line for each thing that it is about, in order, under a heading
//! that counts them.

use vstd::prelude::*;
use vstd::string::*;
use crate::application::queries::{
    ConfigurationReport, DesiredResourcesReport, DiffReport, KnownResourcesReport, PlanReport,
    ProfileListReport, ProfileShowReport, StatusDesired, StatusReport, StatusResource,
    ValidationReport,
};
use crate::cli::render::{
    actual_line, config_list, config_path, desired_resource, desired_resources,
    desired_resources_lines, diagnostic_line, diagnostic_lines, diff, diff_lines, known_resource,
    known_resources, known_resources_lines, observation, operation_lines, plan, planned,
    planned_line, planned_lines, profile_lines, profile_list, profile_list_lines, profile_show,
    query_error, relation_line, render_known_resource, render_resolved_resource, reports_effects,
    resource_lines, status, status_lines, unfinished_lines, valid_lines, validation, Rendered,
};
use crate::domain::desired::ResolvedResource;
use crate::domain::known::KnownResource;
use crate::state::operation::{entry_views, OperationRecord};
use crate::text::{decimal, lined};

verus! {

/// Every line is written out and ended by a newline, one after the other.
pub proof fn every_line_is_ended_by_a_newline(lines: Seq<Seq<char>>, line: Seq<char>)
    ensures
        lined(Seq::empty()) == Seq::<char>::empty(),
        lined(lines.push(line)) == lined(lines) + line.push('\n'),
{
    reveal_strlit("\n");
    assert(lines.push(line).drop_last() =~= lines);
    assert(lined(lines.push(line)) =~= lined(lines) + line.push('\n'));
}

/// The list of profiles counts them, and then names each on a line of its own.
pub proof fn profile_list_names_every_profile(report: ProfileListReport, text: String, i: int) -> (
    lines: Seq<Seq<char>>)
    requires
        call_ensures(profile_list, (&report,), text),
    ensures
        text@ == lined(lines),
        lines.len() == report.profiles@.len() + 1,
        lines[0] == "Profiles: "@ + decimal(report.profiles@.len()),
        0 <= i < report.profiles@.len() ==> lines[i + 1] == report.profiles@[i].id@,
{
    profile_list_lines(report)
}

/// A shown profile is named, and then each of its includes and each of its resources has a line, the
/// includes first. The line of a resource names it, its store, its source and its target.
pub proof fn shown_profile_lists_its_includes_and_resources(
    report: ProfileShowReport,
    text: String,
    i: int,
) -> (lines: Seq<Seq<char>>)
    requires
        call_ensures(profile_show, (&report,), text),
    ensures
        text@ == lined(lines),
        lines.len() == 1 + report.profile.includes@.len() + report.profile.resources@.len(),
        lines[0] == "profile: "@ + report.profile.id@,
        0 <= i < report.profile.includes@.len() ==> lines[i + 1] == "include: "@
            + report.profile.includes@[i]@,
        0 <= i < report.profile.resources@.len() ==> lines[1 + report.profile.includes@.len() + i]
            == "resource "@ + report.profile.resources@[i].resource_id@ + ": file link: store "@
            + report.profile.resources@[i].store_id@ + ": source "@
            + report.profile.resources@[i].source_path@ + ": target "@
            + report.profile.resources@[i].target_path@,
{
    profile_lines(report)
}

/// The list of desired resources names the profile and counts them, and then writes each as it is
/// written alone.
pub proof fn desired_resources_are_listed_as_they_are_written_alone(
    report: DesiredResourcesReport,
    text: String,
    i: int,
    resource: ResolvedResource,
    line: String,
    alone: String,
) -> (lines: Seq<Seq<char>>)
    requires
        call_ensures(desired_resources, (&report,), text),
        0 <= i < report.resources@.len(),
        report.resources@[i] == resource,
        call_ensures(render_resolved_resource, (&resource,), line),
        call_ensures(desired_resource, (&report.root_profile, &resource), alone),
    ensures
        text@ == lined(lines),
        lines.len() == report.resources@.len() + 1,
        lines[0] == "Desired resources for "@ + report.root_profile@ + ": "@ + decimal(
            report.resources@.len(),
        ),
        lines[i + 1] == line@,
        alone@ == lined(seq!["Desired resource for "@ + report.root_profile@ + ":"@, line@]),
{
    desired_resources_lines(report)
}

/// The list of recorded resources counts them, and then writes each as it is written alone.
pub proof fn known_resources_are_listed_as_they_are_written_alone(
    report: KnownResourcesReport,
    text: String,
    i: int,
    resource: KnownResource,
    line: String,
    alone: String,
) -> (lines: Seq<Seq<char>>)
    requires
        call_ensures(known_resources, (&report,), text),
        0 <= i < report.resources@.len(),
        report.resources@[i] == resource,
        call_ensures(render_known_resource, (&resource,), line),
        call_ensures(known_resource, (&resource,), alone),
    ensures
        text@ == lined(lines),
        lines.len() == report.resources@.len() + 1,
        lines[0] == "Known resources: "@ + decimal(report.resources@.len()),
        lines[i + 1] == line@,
        alone@ == lined(seq![line@]),
{
    known_resources_lines(report)
}

/// The lines on an operation are its identity and those of its unsettled actions, and none where there
/// is no operation.
pub proof fn operation_is_listed_with_its_unsettled_actions(
    heading: Seq<char>,
    operation: OperationRecord,
    i: int,
)
    ensures
        operation_lines(heading, None).len() == 0,
        operation_lines(heading, Some(operation)).len() == 1 + unfinished_lines(
            entry_views(operation.actions@),
        ).len(),
        operation_lines(heading, Some(operation))[0] == heading + operation.id@,
        0 <= i < unfinished_lines(entry_views(operation.actions@)).len() ==> operation_lines(
            heading,
            Some(operation),
        )[i + 1] == unfinished_lines(entry_views(operation.actions@))[i],
{
}

/// A drift report counts the resources, and then writes each with its target and what was observed
/// there. The operation comes last. It always exits with success.
pub proof fn drift_is_listed_with_what_was_observed(
    report: DiffReport,
    rendered: Rendered,
    i: int,
    shown: String,
) -> (lines: Seq<Seq<char>>)
    requires
        call_ensures(diff, (&report,), rendered),
        0 <= i < report.resources@.len(),
        call_ensures(observation, (&report.resources@[i].actual,), shown),
    ensures
        rendered.out@ == lined(lines),
        rendered.err@.len() == 0,
        rendered.code == 0,
        lines[0] == "Known resources: "@ + decimal(report.resources@.len()),
        lines[i + 1] == report.resources@[i].resource_id@ + ": "@
            + report.resources@[i].actual.target() + ": "@ + shown@,
        lines.skip(report.resources@.len() as int + 1) == operation_lines(
            "active operation: "@,
            report.active_operation,
        ),
{
    let lines = diff_lines(report);
    assert(lines.skip(report.resources@.len() as int + 1) =~= operation_lines(
        "active operation: "@,
        report.active_operation,
    ));
    lines
}

/// A resource adds two lines to those of the resources before it: how its definitions relate, and then
/// what its target shows.
pub proof fn resource_adds_two_lines(resources: Seq<StatusResource>, resource: StatusResource)
    ensures
        resource_lines(Seq::empty()).len() == 0,
        resource_lines(resources.push(resource)) == resource_lines(resources) + seq![
            relation_line(resource),
            actual_line(resource),
        ],
{
    assert(resources.push(resource).drop_last() =~= resources);
    assert(resource_lines(resources.push(resource)) =~= resource_lines(resources) + seq![
        relation_line(resource),
        actual_line(resource),
    ]);
}

/// A status report starts with its profile and the lines of its resources, or with why nothing is
/// desired. Why nothing could be inspected follows, if anything, and the operation comes last.
pub proof fn status_is_listed_in_order(
    report: StatusReport,
    text: String,
    why: String,
) -> (lines: Seq<Seq<char>>)
    requires
        reports_effects(report),
        call_ensures(status, (&report,), text),
        (report.desired matches StatusDesired::Unavailable(error) ==> call_ensures(
            query_error,
            (&error,),
            why,
        )),
    ensures
        text@ == lined(lines),
        (report.desired matches StatusDesired::Available { root_profile, resources } ==> lines
            == seq!["status profile: "@ + root_profile@] + resource_lines(resources@) + (
        match report.inspection_initialization_error {
            Some(message) => seq!["inspection unavailable: "@ + message@],
            None => Seq::empty(),
        }) + operation_lines("active_operation: "@, report.active_operation)),
        (report.desired is Unavailable ==> lines == seq!["desired_unavailable: "@ + why@] + (
        match report.inspection_initialization_error {
            Some(message) => seq!["inspection unavailable: "@ + message@],
            None => Seq::empty(),
        }) + operation_lines("active_operation: "@, report.active_operation)),
{
    status_lines(report)
}

/// A validation without profiles says so. One with profiles lists those that resolve.
pub proof fn validation_lists_the_valid_profiles(report: ValidationReport, rendered: Rendered)
    requires
        call_ensures(validation, (&report,), rendered),
    ensures
        report.profiles@.len() == 0 ==> rendered.out@ == "No profiles discovered."@ + seq!['\n']
            && rendered.err@.len() == 0,
        report.profiles@.len() > 0 ==> rendered.out@ == lined(valid_lines(report.profiles@)),
{
    if report.profiles@.len() == 0 {
        let line = "No profiles discovered."@;
        every_line_is_ended_by_a_newline(Seq::empty(), line);
        assert(Seq::<Seq<char>>::empty().push(line) =~= seq![line]);
        assert(rendered.out@ =~= line + seq!['\n']);
    }
}

/// A plan is written with one line for each action on the output and one for each obstacle on the
/// error output, and so is what is planned without its heading.
pub proof fn plan_lists_its_actions_and_obstacles(
    report: PlanReport,
    rendered: Rendered,
    bare: Rendered,
    i: int,
) -> (lines: (Seq<Seq<char>>, Seq<Seq<char>>))
    requires
        call_ensures(plan, (&report,), rendered),
        call_ensures(planned, (&report.plan,), bare),
    ensures
        bare.out@ == lined(lines.0),
        bare.err@ == lined(lines.1),
        rendered.err@ == bare.err@,
        rendered.code == bare.code,
        lines.0.len() == report.plan@.actions.len(),
        lines.1.len() == report.plan@.diagnostics.len(),
        0 <= i < lines.0.len() ==> lines.0[i] == planned_line(report.plan@.actions[i]),
        0 <= i < lines.1.len() ==> lines.1[i] == diagnostic_line(report.plan@.diagnostics[i]),
        exists|heading: Seq<char>| rendered.out@ == #[trigger] lined(seq![heading] + lines.0),
{
    let heading = "profile "@ + report.profile@ + ": "@ + crate::cli::render::executable_text(
        report.plan@,
    ) + " plan"@;
    assert(rendered.out@ == lined(seq![heading] + planned_lines(report.plan@)));
    (planned_lines(report.plan@), diagnostic_lines(report.plan@))
}

/// A configuration is written with its path, its default profile and then each of its stores. Its path
/// alone is a line.
pub proof fn configuration_is_listed_with_its_stores(
    report: ConfigurationReport,
    path: &str,
    rendered: Rendered,
    alone: Rendered,
    i: int,
) -> (lines: Seq<Seq<char>>)
    requires
        call_ensures(config_list, (&report,), rendered),
        call_ensures(config_path, (path,), alone),
    ensures
        rendered.out@ == lined(lines),
        rendered.err@.len() == 0,
        rendered.code == 0,
        lines.len() == report.stores@.len() + 2,
        lines[0] == "configuration: "@ + report.configuration_path@,
        lines[1] == match report.default_profile {
            Some(profile) => "default_profile: "@ + profile@,
            None => "default_profile: <unset>"@,
        },
        alone.out@ == path@.push('\n'),
        alone.err@.len() == 0,
        alone.code == 0,
{
    reveal_strlit("\n");
    assert(alone.out@ =~= path@.push('\n'));
    seq![
        "configuration: "@ + report.configuration_path@,
        crate::cli::render::default_profile_line(report.default_profile),
    ] + Seq::new(
        report.stores@.len(),
        |i: int| crate::cli::render::store_line(report.stores@[i]),
    )
}

} // verus!
