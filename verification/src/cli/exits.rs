//! What the exit codes and the last words of a command tell.

use vstd::prelude::*;
use vstd::string::*;
use crate::application::apply::{ApplyFailure, ApplyFailureCause, ApplyReport, ApplyStage};
use crate::application::errors::ApplyError;
use crate::application::queries::{
    ConfigurationReport, ConfigurationValueReport, DesiredResourcesReport, KnownResourcesReport,
    PlanReport, ProfileListReport, QueryError, ResolverError, StatusDesired, StatusReport,
};
use crate::application::reconcile::ApplyAction;
use crate::authoring::config_set::{ConfigSetError, SetPreparation};
use crate::authoring::config_use::{ConfigUseError, UsePreparation};
use crate::authoring::init::{InitError, InitReport};
use crate::cli::apply::{
    accepts, affected_lines, commit_lines, committed_lines, confirmation, failed_plan_lines,
    failure_exit_code, failure_lines, failure_output, outcome_lines, recorded_lines, run, run_dry,
    stage_text, status_text, Confirmation,
};
use crate::cli::authoring::{
    config_set_answer, config_set_confirmation, config_set_error, config_set_preview,
    config_use_answer, config_use_confirmation, config_use_error, config_use_preview,
    current_directory_error, edit_lines, run_config_set, run_config_use, run_init, selection_lines,
};
use crate::cli::commands::{
    accept, argument_output, load_error, query_exit_code, render_result, run_config,
    run_known_list, run_profile_list, run_resource_list, run_status, surroundings, Command,
    ConfigAnswer, ConfigCommand, LoadError, ProfileCommand, ResourceCommand, Surroundings,
};
use crate::cli::render::{action_text, planned_lines, reports_effects, Rendered};
use crate::domain::ids::FullyQualifiedResourceId;
use crate::domain::plan::Plan;
use crate::state::operation::{ActionStatus, EntryView};
use crate::state::repository::{CommitFailureEffect, OperationOutcome};
use crate::text::{
    closes, decimal, is_blank, is_white, lined, opens, text_is_trimmed_in_one_way, trimmed,
    trimmed_text_stands_between_white_space,
};

verus! {

/// Whether nothing could be read where a query stopped, as opposed to something being wrong.
pub open spec fn is_unread(error: QueryError) -> bool {
    match error {
        QueryError::ConfigurationRead { .. } => true,
        QueryError::State(_) => true,
        QueryError::Inspection { .. } => true,
        QueryError::Resolution(ResolverError::ReadProfile { .. }) => true,
        QueryError::Resolution(ResolverError::HomeDirectoryIo { .. }) => true,
        QueryError::Resolution(ResolverError::ProfileDiscoveryIo { not_found, .. }) => !not_found,
        _ => false,
    }
}

/// A query that stopped exits with one exactly if something could not be read, and with two where
/// something is wrong.
pub proof fn stopped_query_exits_by_what_stopped_it(error: QueryError, code: u8)
    requires
        call_ensures(query_exit_code, (&error,), code),
    ensures
        code == 1 <==> is_unread(error),
        code == 2 <==> !is_unread(error),
{
}

/// Every query that stopped is written alike, whatever it was asked: nothing but the error, and never
/// with success.
pub proof fn stopped_queries_are_written_alike(
    error: QueryError,
    field: String,
    plain: Rendered,
    status: Rendered,
    profiles: Rendered,
    desired: Rendered,
    known: Rendered,
    listed: Rendered,
    got: Rendered,
    planned: Rendered,
)
    requires
        call_ensures(render_result, (Err(error),), plain),
        call_ensures(run_status, (Err(error),), status),
        call_ensures(run_profile_list, (Err(error),), profiles),
        call_ensures(run_resource_list, (Err(error),), desired),
        call_ensures(run_known_list, (Err(error),), known),
        call_ensures(run_config, (ConfigAnswer::Listed(Err(error)),), listed),
        call_ensures(run_config, (ConfigAnswer::Got { value: Err(error), field },), got),
        call_ensures(run_dry, (Err(error),), planned),
    ensures
        plain.out@.len() == 0,
        opens(plain.err@, "error: "@),
        closes(plain.err@, "\n"@),
        plain.code == 1 <==> is_unread(error),
        plain.code == 2 <==> !is_unread(error),
        same_rendering(plain, status),
        same_rendering(plain, profiles),
        same_rendering(plain, desired),
        same_rendering(plain, known),
        same_rendering(plain, listed),
        same_rendering(plain, got),
        same_rendering(plain, planned),
{
}

/// Whether two commands write the same and exit alike.
pub open spec fn same_rendering(left: Rendered, right: Rendered) -> bool {
    &&& left.out@ == right.out@
    &&& left.err@ == right.err@
    &&& left.code == right.code
}

/// A query that was answered exits with success and writes no error.
pub proof fn answered_query_exits_with_success(
    profiles: ProfileListReport,
    desired: DesiredResourcesReport,
    known: KnownResourcesReport,
    configuration: ConfigurationReport,
    value: ConfigurationValueReport,
    path: String,
    field: String,
    listed_profiles: Rendered,
    listed_desired: Rendered,
    listed_known: Rendered,
    listed: Rendered,
    got: Rendered,
    located: Rendered,
)
    requires
        call_ensures(run_profile_list, (Ok(profiles),), listed_profiles),
        call_ensures(run_resource_list, (Ok(desired),), listed_desired),
        call_ensures(run_known_list, (Ok(known),), listed_known),
        call_ensures(run_config, (ConfigAnswer::Listed(Ok(configuration)),), listed),
        call_ensures(run_config, (ConfigAnswer::Got { value: Ok(value), field },), got),
        call_ensures(run_config, (ConfigAnswer::Path { path },), located),
    ensures
        listed_profiles.code == 0 && listed_profiles.err@.len() == 0,
        listed_desired.code == 0 && listed_desired.err@.len() == 0,
        listed_known.code == 0 && listed_known.err@.len() == 0,
        listed.code == 0 && listed.err@.len() == 0,
        got.code == 0 && got.err@.len() == 0,
        located.code == 0 && located.err@.len() == 0 && located.out@ == path@ + "\n"@,
{
}

/// A status exits with success exactly if the declaration is available and every target was
/// observed. Otherwise it exits with one where a target could not be observed, and by what stopped
/// the declaration where there is none.
pub proof fn status_exits_with_success_exactly_if_all_was_seen(
    report: StatusReport,
    rendered: Rendered,
)
    requires
        reports_effects(report),
        call_ensures(run_status, (Ok(report),), rendered),
    ensures
        rendered.code == 0 <==> report.desired is Available && !report.has_unavailable_observation,
        report.desired is Available && report.has_unavailable_observation ==> rendered.code == 1,
        (report.desired matches StatusDesired::Unavailable(error) ==> (rendered.code == 1
            <==> is_unread(error)) && (rendered.code == 2 <==> !is_unread(error))),
        rendered.err@.len() == 0,
{
}

/// Where the paths of the machine cannot be had, a command exits with one for what could not be
/// read, and with two for what is wrong, and says so.
pub proof fn unread_machine_exits_with_one(error: LoadError, rendered: Rendered)
    requires
        call_ensures(load_error, (&error,), rendered),
    ensures
        rendered.code == 1 <==> error is Read || error is CurrentDirectory,
        rendered.code == 2 <==> error is Other,
        rendered.out@.len() == 0,
        (error matches LoadError::Read { message } ==> rendered.err@ == "error: "@ + message@
            + "\n"@),
        (error matches LoadError::CurrentDirectory { message } ==> rendered.err@ == "error: "@
            + message@ + "\n"@),
        (error matches LoadError::Other { message } ==> rendered.err@ == "error: "@ + message@
            + "\n"@),
{
}

/// Help and version are written to the output with success. Arguments that make no command are an
/// error of the input, with the code that came with them.
pub proof fn arguments_are_answered_or_refused(
    text: &str,
    asked_for: bool,
    code: u8,
    rendered: Rendered,
)
    requires
        call_ensures(argument_output, (text, asked_for, code), rendered),
    ensures
        asked_for ==> rendered.code == 0 && rendered.out@ == text@ && rendered.err@.len() == 0,
        !asked_for ==> rendered.code == code && rendered.out@.len() == 0 && opens(
            rendered.err@,
            "input error: "@ + text@,
        ) && rendered.err@.len() == "input error: "@.len() + text@.len() + "\n"@.len(),
{
}

/// The configuration that a command was given, if it takes one and was given one.
pub proof fn command_names_the_configuration_it_was_given(command: Command, config: Option<&String>)
    requires
        call_ensures(Command::config, (&command,), config),
    ensures
        command is Init || command is Diff ==> config is None,
        command == Command::Resource(ResourceCommand::ListKnown) ==> config is None,
        (command matches Command::Config(ConfigCommand::Use { .. }) ==> config is None),
        (command matches Command::Validate { config: given, .. } ==> names(config, given)),
        (command matches Command::Plan { config: given, .. } ==> names(config, given)),
        (command matches Command::Apply { config: given, .. } ==> names(config, given)),
        (command matches Command::Status { config: given, .. } ==> names(config, given)),
        (command matches Command::Profile(ProfileCommand::List { config: given }) ==> names(
            config,
            given,
        )),
        (command matches Command::Resource(ResourceCommand::List { config: given, .. }) ==> names(
            config,
            given,
        )),
        (command matches Command::Config(ConfigCommand::Path { config: given, .. }) ==> names(
            config,
            given,
        )),
        (command matches Command::Config(ConfigCommand::List { config: given }) ==> names(
            config,
            given,
        )),
        (command matches Command::Config(ConfigCommand::Get { config: given, .. }) ==> names(
            config,
            given,
        )),
        (command matches Command::Config(ConfigCommand::SetField { config: given, .. }) ==> names(
            config,
            given,
        )),
{
}

/// Whether a path is the one that was given.
pub open spec fn names(config: Option<&String>, given: Option<String>) -> bool {
    match (config, given) {
        (Some(config), Some(given)) => config@ == given@,
        (None, None) => true,
        _ => false,
    }
}

/// A command is accepted as it is exactly if it was given no empty path. The refusal names the
/// argument.
pub proof fn command_is_accepted_exactly_without_an_empty_path(
    command: Command,
    config: Option<&String>,
    outcome: Result<Command, String>,
)
    requires
        call_ensures(Command::config, (&command,), config),
        call_ensures(accept, (command,), outcome),
    ensures
        ({
            let unnamed = config matches Some(config) && config@.len() == 0;
            let unused = command matches Command::Config(ConfigCommand::Use { path, .. })
                && path@.len() == 0;
            &&& outcome is Ok <==> !unnamed && !unused
            &&& outcome matches Ok(accepted) ==> accepted == command
            &&& outcome matches Err(message) ==> (opens(message@, "--config "@) <==> unnamed)
            &&& outcome matches Err(message) ==> (opens(message@, "config use "@) <==> !unnamed)
        }),
{
    reveal_strlit("--config requires a path");
    reveal_strlit("config use requires a path");
    reveal_strlit("--config ");
    reveal_strlit("config use ");
    if let Err(message) = outcome {
        // The letter by which the words are told apart.
        let letter = message@[0];
    }
}

/// What a command has to know of the machine: a new bundle only the current directory, what is about
/// the record alone no configuration, and everything else all of it.
pub proof fn record_is_read_without_a_configuration(command: Command, needed: Surroundings)
    requires
        call_ensures(surroundings, (&command,), needed),
    ensures
        needed is CurrentDirectory <==> command is Init,
        needed is State <==> command is Diff || command == Command::Resource(
            ResourceCommand::ListKnown,
        ),
{
}

/// Every stage of an apply has a name of its own.
pub proof fn stage_is_told_by_its_name(stage: ApplyStage)
    ensures
        stage_text(stage) == "LockAndState"@ <==> stage is LockAndState,
        stage_text(stage) == "Recovery"@ <==> stage is Recovery,
        stage_text(stage) == "Resolution"@ <==> stage is Resolution,
        stage_text(stage) == "Planning"@ <==> stage is Planning,
        stage_text(stage) == "Preflight"@ <==> stage is Preflight,
        stage_text(stage) == "OperationCreation"@ <==> stage is OperationCreation,
        stage_text(stage) == "Execution"@ <==> stage is Execution,
        stage_text(stage) == "Closure"@ <==> stage is Closure,
{
    reveal_strlit("LockAndState");
    reveal_strlit("Recovery");
    reveal_strlit("Resolution");
    reveal_strlit("Planning");
    reveal_strlit("Preflight");
    reveal_strlit("OperationCreation");
    reveal_strlit("Execution");
    reveal_strlit("Closure");
    let word = stage_text(stage);
    // The letters by which the words are told apart.
    let letters = (word.len(), word[0]);
}

/// Every recorded status has a name of its own.
pub proof fn status_is_told_by_its_name(status: ActionStatus)
    ensures
        status_text(status) == "Pending"@ <==> status is Pending,
        status_text(status) == "Running"@ <==> status is Running,
        status_text(status) == "Succeeded"@ <==> status is Succeeded,
        status_text(status) == "Failed"@ <==> status is Failed,
        status_text(status) == "Skipped"@ <==> status is Skipped,
        status_text(status) == "Uncertain"@ <==> status is Uncertain,
{
    reveal_strlit("Pending");
    reveal_strlit("Running");
    reveal_strlit("Succeeded");
    reveal_strlit("Failed");
    reveal_strlit("Skipped");
    reveal_strlit("Uncertain");
    let word = status_text(status);
    // The letters by which the words are told apart.
    let letters = (word.len(), word[0]);
}

/// A failed apply exits with two exactly if nothing was committed, no commit failed, and what stopped
/// it can be put right: input that is wrong, a check that failed, or an operation to be recovered.
/// Otherwise it exits with one.
pub proof fn failed_apply_exits_by_what_can_be_put_right(failure: ApplyFailure, code: u8)
    requires
        call_ensures(failure_exit_code, (&failure,), code),
    ensures
        code == 1 || code == 2,
        code == 2 <==> failure.committed@.len() == 0 && failure.commit_failure is None && match (
            failure.cause,
            failure.stage,
        ) {
            (ApplyFailureCause::Input(error), _) => !is_unread(error),
            (ApplyFailureCause::Lifecycle(_), ApplyStage::Preflight) => true,
            (
                ApplyFailureCause::Lifecycle(ApplyError::RecoveryRequired),
                ApplyStage::Recovery,
            ) => true,
            _ => false,
        },
{
}

proof fn lemma_first_line(lines: Seq<Seq<char>>)
    requires
        lines.len() > 0,
    ensures
        opens(lined(lines), lines[0] + "\n"@),
    decreases lines.len(),
{
    if lines.len() == 1 {
        assert(lines.drop_last() =~= Seq::empty());
        assert(lined(lines.drop_last()) =~= Seq::empty());
        assert(lined(lines) =~= lines[0] + "\n"@);
    } else {
        lemma_first_line(lines.drop_last());
    }
}

/// A failed apply names the stage and the cause before anything else.
pub proof fn failed_apply_names_its_stage_first(failure: ApplyFailure, text: String)
    requires
        call_ensures(failure_output, (&failure,), text),
    ensures
        opens(text@, "apply failed during "@ + stage_text(failure.stage) + ": "@),
        (failure.cause matches ApplyFailureCause::Lifecycle(error) ==> opens(
            text@,
            "apply failed during "@ + stage_text(failure.stage) + ": "@ + error.message() + "\n"@,
        )),
{
    lemma_first_line(failure_lines(failure));
}

/// What is said of the operation tells what the repository holds: that it could not be had, that there
/// is none, or that one was retained or closed, with its actions.
pub proof fn operation_is_told_by_its_words(operation: Option<OperationOutcome>)
    ensures
        outcome_lines(operation).len() > 0,
        opens(outcome_lines(operation)[0], "operation: unavailable"@) <==> operation is None,
        opens(outcome_lines(operation)[0], "operation: absent"@) <==> operation == Some(
            OperationOutcome::Absent,
        ),
        opens(outcome_lines(operation)[0], "operation retained: "@) <==> (operation matches Some(
            OperationOutcome::Retained(_),
        )),
        opens(outcome_lines(operation)[0], "operation closed: "@) <==> (operation matches Some(
            OperationOutcome::Closed(_),
        )),
        (operation matches Some(OperationOutcome::Retained(record)) ==> closes(
            outcome_lines(operation)[0],
            ": "@ + record.id@,
        ) && outcome_lines(operation).len() == record.actions@.len() + 1),
        (operation matches Some(OperationOutcome::Closed(record)) ==> closes(
            outcome_lines(operation)[0],
            ": "@ + record.id@,
        ) && outcome_lines(operation).len() == record.actions@.len() + 1),
{
    reveal_strlit("operation: unavailable");
    reveal_strlit("operation: unavailable (lock or state load failed)");
    reveal_strlit("operation: absent");
    reveal_strlit("operation retained: ");
    reveal_strlit("operation closed: ");
    reveal_strlit(": ");
    let line = outcome_lines(operation)[0];
    // The letters by which the words are told apart.
    let letters = (line[9], line[10], line[11]);
}

/// The line on a recorded action of the operation names the action and ends with its status.
pub proof fn recorded_action_is_told_with_its_status(entries: Seq<EntryView>, i: int)
    requires
        0 <= i < entries.len(),
    ensures
        recorded_lines(entries).len() == entries.len(),
        opens(
            recorded_lines(entries)[i],
            "  "@ + entries[i].id + ": "@ + action_text(entries[i].action.kind) + " "@
                + entries[i].action.resource_id + ": "@ + entries[i].action.target_path,
        ),
        closes(
            recorded_lines(entries)[i],
            ": recorded status "@ + status_text(entries[i].action.status),
        ),
{
    reveal_strlit(": ");
    reveal_strlit("recorded status ");
    reveal_strlit(": recorded status ");
}

/// What is said of a commit that failed tells whether the state was replaced, and nothing is said where
/// none failed.
pub proof fn failed_commit_is_told_by_its_words(effect: Option<CommitFailureEffect>)
    ensures
        commit_lines(effect).len() == 0 <==> effect is None,
        effect is Some ==> commit_lines(effect).len() == 1,
        effect is Some ==> (opens(
            commit_lines(effect)[0],
            "commit failed: previous state retained"@,
        ) <==> effect == Some(CommitFailureEffect::PreviousStateRetained)),
        effect is Some ==> (opens(
            commit_lines(effect)[0],
            "commit failed: state replaced; durability unconfirmed"@,
        ) <==> effect == Some(CommitFailureEffect::ReplacedDurabilityUnconfirmed)),
{
    reveal_strlit("commit failed: previous state retained");
    reveal_strlit("commit failed: state replaced; durability unconfirmed");
    reveal_strlit(
        "commit failed: state replaced; durability unconfirmed (recorded status is not confirmed durable)",
    );
    // The letter by which the words are told apart.
    let letter = commit_lines(effect)[0][15];
}

/// The action that a failure is about is named with its kind and its resource, and with its identity
/// where it is on record.
pub proof fn affected_action_is_named(action: Option<ApplyAction>)
    ensures
        affected_lines(action).len() == 0 <==> action is None,
        (action matches Some(action) ==> affected_lines(Some(action)).len() == 1 && opens(
            affected_lines(Some(action))[0],
            "affected action: "@ + action_text(action.kind) + " "@ + action.resource_id@,
        )),
        (action matches Some(action) ==> (action.action_id matches Some(id) ==> closes(
            affected_lines(Some(action))[0],
            action.resource_id@ + " ("@ + id@ + ")"@,
        ))),
        (action matches Some(action) ==> (action.action_id is None ==> closes(
            affected_lines(Some(action))[0],
            " "@ + action.resource_id@,
        ))),
{
}

/// What was committed is counted and then listed, one resource after the other.
pub proof fn committed_resources_are_counted_and_listed(
    committed: Seq<FullyQualifiedResourceId>,
    i: int,
)
    requires
        0 <= i < committed.len(),
    ensures
        committed_lines(committed).len() == committed.len() + 1,
        committed_lines(committed)[0] == "committed actions: "@ + decimal(committed.len()),
        committed_lines(committed)[i + 1] == "  "@ + committed[i]@,
{
}

/// The plan of a failed apply is shown exactly if there was one, and said to be executable exactly if
/// it was.
pub proof fn plan_of_a_failed_apply_is_shown(plan: Option<Plan>)
    ensures
        failed_plan_lines(plan).len() == 0 <==> plan is None,
        (plan matches Some(plan) ==> failed_plan_lines(Some(plan)).len() == 1
            + plan@.actions.len() + plan@.diagnostics.len()),
        (plan matches Some(plan) ==> (opens(
            failed_plan_lines(Some(plan))[0],
            "plan: executable;"@,
        ) <==> plan@.executable())),
        (plan matches Some(plan) ==> (opens(failed_plan_lines(Some(plan))[0], "plan: blocked;"@)
            <==> !plan@.executable())),
{
    reveal_strlit("plan: ");
    reveal_strlit("executable");
    reveal_strlit("blocked");
    reveal_strlit("; actions at failure:");
    reveal_strlit("plan: executable;");
    reveal_strlit("plan: blocked;");
    // The letter by which the words are told apart.
    let letter = failed_plan_lines(plan)[0][6];
}

/// A question is settled before it is asked exactly if it was granted beforehand, and it is refused
/// exactly if nobody is there to answer.
pub proof fn question_is_asked_only_where_someone_can_answer(
    yes: bool,
    interactive: bool,
    applied: Confirmation,
    used: Confirmation,
    set: Confirmation,
)
    requires
        call_ensures(confirmation, (yes, interactive), applied),
        call_ensures(config_use_confirmation, (yes, interactive), used),
        call_ensures(config_set_confirmation, (yes, interactive), set),
    ensures
        applied is Granted <==> yes,
        applied is Ask <==> !yes && interactive,
        applied is Refused <==> !yes && !interactive,
        used is Granted <==> yes,
        used is Ask <==> !yes && interactive,
        used is Refused <==> !yes && !interactive,
        set is Granted <==> yes,
        set is Ask <==> !yes && interactive,
        set is Refused <==> !yes && !interactive,
        (applied matches Confirmation::Ask { prompt } ==> opens(prompt@, "Apply "@)),
        (used matches Confirmation::Ask { prompt } ==> opens(prompt@, "Use "@)),
        (set matches Confirmation::Ask { prompt } ==> opens(prompt@, "Set "@)),
        (applied matches Confirmation::Refused { message } ==> closes(
            message@,
            "apply requires --yes\n"@,
        )),
        (used matches Confirmation::Refused { message } ==> closes(
            message@,
            "config use requires --yes\n"@,
        )),
        (set matches Confirmation::Refused { message } ==> closes(
            message@,
            "config set requires --yes\n"@,
        )),
{
    reveal_strlit("Apply this plan? [y/N] ");
    reveal_strlit("Apply ");
    reveal_strlit("Use this portable configuration? [y/N] ");
    reveal_strlit("Use ");
    reveal_strlit("Set this configuration field? [y/N] ");
    reveal_strlit("Set ");
    reveal_strlit("confirmation unavailable: non-interactive apply requires --yes\n");
    reveal_strlit("apply requires --yes\n");
    reveal_strlit("confirmation unavailable: non-interactive config use requires --yes\n");
    reveal_strlit("config use requires --yes\n");
    reveal_strlit("confirmation unavailable: non-interactive config set requires --yes\n");
    reveal_strlit("config set requires --yes\n");
}

/// A small letter for a capital one.
pub open spec fn small(letter: char) -> char {
    if 'A' <= letter <= 'Z' {
        ((letter as int) + 32) as char
    } else {
        letter
    }
}

/// Whether a word grants what was asked, in whatever case it is written.
pub open spec fn grants(word: Seq<char>) -> bool {
    word.map_values(|letter: char| small(letter)) == seq!['y'] || word.map_values(
        |letter: char| small(letter),
    ) == seq!['y', 'e', 's']
}

/// An answer grants what was asked exactly if it is `y` or `yes`, in any case, with nothing but white
/// space around it.
pub proof fn answer_grants_by_y_or_yes_alone(response: &str, yes: bool)
    requires
        call_ensures(accepts, (response,), yes),
    ensures
        yes <==> exists|before: Seq<char>, word: Seq<char>, after: Seq<char>|
            #![trigger is_blank(before), grants(word), is_blank(after)]
            is_blank(before) && grants(word) && is_blank(after) && response@ == before + word
                + after,
{
    let text = response@;
    let around = trimmed_text_stands_between_white_space(text);
    let word = trimmed(text);
    if yes {
        lemma_grants(word);
        assert(is_blank(around.0) && grants(word) && is_blank(around.1));
    }
    if exists|before: Seq<char>, word: Seq<char>, after: Seq<char>|
        #![trigger is_blank(before), grants(word), is_blank(after)]
        is_blank(before) && grants(word) && is_blank(after) && text == before + word + after {
        let (before, found, after) = choose|before: Seq<char>, word: Seq<char>, after: Seq<char>|
            #![trigger is_blank(before), grants(word), is_blank(after)]
            is_blank(before) && grants(word) && is_blank(after) && text == before + word + after;
        lemma_grants(found);
        text_is_trimmed_in_one_way(before, found, after);
    }
}

proof fn lemma_grants(word: Seq<char>)
    ensures
        grants(word) <==> {
            ||| word.len() == 1 && (word[0] == 'y' || word[0] == 'Y')
            ||| word.len() == 3 && (word[0] == 'y' || word[0] == 'Y') && (word[1] == 'e'
                || word[1] == 'E') && (word[2] == 's' || word[2] == 'S')
        },
        grants(word) ==> !is_white(word[0]) && !is_white(word.last()),
{
    let lowered = word.map_values(|letter: char| small(letter));
    assert(lowered.len() == word.len());
    assert forall|i: int| 0 <= i < word.len() implies #[trigger] lowered[i] == small(word[i]) by {}
    assert forall|letter: char| #[trigger] small(letter) == 'y' <==> letter == 'y' || letter == 'Y' by {
        lemma_small(letter);
    }
    assert forall|letter: char| #[trigger] small(letter) == 'e' <==> letter == 'e' || letter == 'E' by {
        lemma_small(letter);
    }
    assert forall|letter: char| #[trigger] small(letter) == 's' <==> letter == 's' || letter == 'S' by {
        lemma_small(letter);
    }
    if word.len() == 1 {
        assert(lowered[0] == small(word[0]));
        if small(word[0]) == 'y' {
            assert(lowered =~= seq!['y']);
        }
    }
    if word.len() == 3 {
        assert(lowered[0] == small(word[0]));
        assert(lowered[1] == small(word[1]));
        assert(lowered[2] == small(word[2]));
        if small(word[0]) == 'y' && small(word[1]) == 'e' && small(word[2]) == 's' {
            assert(lowered =~= seq!['y', 'e', 's']);
        }
    }
}

proof fn lemma_small(letter: char)
    ensures
        'A' <= letter <= 'Z' ==> small(letter) as int == letter as int + 32,
{
}

/// A selection and an edit go on exactly if the answer grants them. Otherwise they are cancelled with
/// two, and say so.
pub proof fn answer_that_does_not_grant_cancels(
    response: &str,
    yes: bool,
    used: Option<Rendered>,
    set: Option<Rendered>,
)
    requires
        call_ensures(accepts, (response,), yes),
        call_ensures(config_use_answer, (response,), used),
        call_ensures(config_set_answer, (response,), set),
    ensures
        used is None <==> yes,
        set is None <==> yes,
        (used matches Some(rendered) ==> rendered.code == 2 && rendered.out@.len() == 0 && opens(
            rendered.err@,
            "config use cancelled"@,
        )),
        (set matches Some(rendered) ==> rendered.code == 2 && rendered.out@.len() == 0 && opens(
            rendered.err@,
            "config set cancelled"@,
        )),
{
    reveal_strlit("config use cancelled: confirmation not granted\n");
    reveal_strlit("config set cancelled: confirmation not granted\n");
    reveal_strlit("config use cancelled");
    reveal_strlit("config set cancelled");
}

/// An apply exits with success exactly if it applied its plan. One that was declined exits with two,
/// and one that failed with one or two, and both write to the error output alone.
pub proof fn apply_exits_with_success_exactly_if_it_applied(
    result: Result<ApplyReport, ApplyFailure>,
    rendered: Rendered,
)
    requires
        call_ensures(run, (result,), rendered),
        (result matches Ok(ApplyReport::Blocked { plan }) ==> !plan@.executable()),
    ensures
        rendered.code == 0 <==> (result matches Ok(ApplyReport::Applied { .. })),
        rendered.code <= 2,
        (result matches Ok(ApplyReport::Applied { committed, .. }) ==> rendered.out@
            == "apply completed: "@ + decimal(committed@.len()) + " committed actions\n"@
            && rendered.err@.len() == 0),
        (result matches Ok(ApplyReport::Blocked { .. }) ==> rendered.code == 2 && opens(
            rendered.out@,
            "blocked plan\n"@,
        )),
        (result matches Ok(ApplyReport::Declined { .. }) ==> rendered.code == 2
            && rendered.out@.len() == 0 && rendered.err@
            == "apply cancelled: confirmation not granted\n"@),
        (result matches Err(failure) ==> rendered.out@.len() == 0 && opens(
            rendered.err@,
            "apply failed during "@,
        )),
{
    reveal_strlit("\n");
    reveal_strlit("apply cancelled: confirmation not granted");
    reveal_strlit("apply cancelled: confirmation not granted\n");
    reveal_strlit("blocked plan");
    reveal_strlit("blocked plan\n");
    reveal_strlit(" committed actions");
    reveal_strlit(" committed actions\n");
    match result {
        Ok(ApplyReport::Applied { committed, .. }) => {
            let line = "apply completed: "@ + decimal(committed@.len()) + " committed actions"@;
            lemma_only_line(line);
            assert(rendered.out@ =~= "apply completed: "@ + decimal(committed@.len())
                + " committed actions\n"@);
        },
        Ok(ApplyReport::Blocked { plan }) => {
            lemma_first_line(
                seq!["blocked plan"@] + planned_lines(plan@),
            );
        },
        Ok(ApplyReport::Declined { .. }) => {
            lemma_only_line("apply cancelled: confirmation not granted"@);
            assert(rendered.err@ =~= "apply cancelled: confirmation not granted\n"@);
        },
        Err(failure) => {
            lemma_first_line(failure_lines(failure));
        },
    }
}

proof fn lemma_only_line(line: Seq<char>)
    ensures
        lined(seq![line]) == line + "\n"@,
{
    let lines = seq![line];
    assert(lines.drop_last() =~= Seq::empty());
    assert(lined(lines.drop_last()) =~= Seq::empty());
    assert(lined(lines) =~= line + "\n"@);
}

/// A dry run exits with success exactly if there is a plan and it may be executed.
pub proof fn dry_run_exits_with_success_exactly_if_the_plan_may_be_executed(
    outcome: Result<PlanReport, QueryError>,
    rendered: Rendered,
)
    requires
        call_ensures(run_dry, (outcome,), rendered),
    ensures
        rendered.code == 0 <==> (outcome matches Ok(report) && report.plan@.executable()),
        (outcome matches Ok(report) ==> (rendered.code == 2 <==> !report.plan@.executable())),
{
}

/// A new bundle is announced before it is made exactly on a dry run. One that could not be made exits
/// with two exactly if something is in its place or the platform does not allow it.
pub proof fn new_bundle_is_announced_or_reported(
    result: Result<InitReport, InitError>,
    rendered: Rendered,
)
    requires
        call_ensures(run_init, (result,), rendered),
    ensures
        rendered.code == 0 <==> result is Ok,
        (result matches Err(error) ==> (rendered.code == 2 <==> error is AlreadyExists || error
            is UnsupportedPlatform) && rendered.code <= 2 && rendered.out@.len() == 0),
        (result matches Ok(report) ==> rendered.err@.len() == 0 && (opens(
            rendered.out@,
            "would create "@,
        ) <==> report@.dry_run) && (opens(rendered.out@, "initialized "@) <==> !report@.dry_run)
            && closes(rendered.out@, " "@ + report@.root + "\n"@)),
{
    reveal_strlit("would create ");
    reveal_strlit("initialized ");
    reveal_strlit(" ");
    // The letter by which the words are told apart.
    let letter = rendered.out@[0];
}

/// A selection that failed exits with one exactly if a file could not be written or what was written is
/// not what was meant, and with two for everything that is wrong with the input.
pub proof fn failed_selection_exits_by_what_failed(
    error: ConfigUseError,
    selected: &str,
    shown: Rendered,
    published: Rendered,
)
    requires
        call_ensures(config_use_error, (&error,), shown),
        call_ensures(run_config_use, (selected, Err(error)), published),
    ensures
        shown.code == 1 <==> error is Io || error is InvalidPublished,
        shown.code == 2 <==> error !is Io && error !is InvalidPublished,
        shown.out@.len() == 0,
        opens(shown.err@, "error: "@),
        same_rendering(shown, published),
{
}

/// An edit that failed exits with two exactly if the input is wrong, and with one otherwise.
pub proof fn failed_edit_exits_by_what_failed(
    error: ConfigSetError,
    field: &str,
    shown: Rendered,
    published: Rendered,
)
    requires
        call_ensures(config_set_error, (&error,), shown),
        call_ensures(run_config_set, (field, Err(error)), published),
    ensures
        shown.code == 2 <==> error is Input,
        shown.code == 1 <==> error !is Input,
        shown.out@.len() == 0,
        opens(shown.err@, "error: "@),
        same_rendering(shown, published),
{
}

/// What was published is named, with success.
pub proof fn published_change_exits_with_success(
    selected: &str,
    field: &str,
    used: Rendered,
    set: Rendered,
)
    requires
        call_ensures(run_config_use, (selected, Ok(())), used),
        call_ensures(run_config_set, (field, Ok(())), set),
    ensures
        used.code == 0 && used.err@.len() == 0 && used.out@
            == "selected portable configuration: "@ + selected@ + "\n"@,
        set.code == 0 && set.err@.len() == 0 && set.out@ == "set "@ + field@ + "\n"@,
{
}

/// The preview of a selection shows the path that was selected before, or that there was none, and
/// then the one that will be.
pub proof fn selection_is_shown_with_what_it_replaces(preparation: UsePreparation)
    ensures
        selection_lines(preparation@).len() == 3,
        selection_lines(preparation@)[0] == "runtime configuration: "@ + preparation@.destination,
        (preparation@.prior matches Some(prior) ==> selection_lines(preparation@)[1]
            == "prior config_path: "@ + prior),
        preparation@.prior is None ==> selection_lines(preparation@)[1]
            == "prior config_path: "@ + "<absent>"@,
        selection_lines(preparation@)[2] == "resulting config_path: "@ + preparation@.selected,
{
}

/// The preview of an edit shows the file, and then the field with what it held before and with what it
/// will hold.
pub proof fn edit_is_shown_with_what_it_replaces(
    edit: SetPreparation,
    selection: UsePreparation,
    shown: String,
    selected: String,
) -> (lines: Seq<Seq<char>>)
    requires
        call_ensures(config_set_preview, (&edit,), shown),
        call_ensures(config_use_preview, (&selection,), selected),
    ensures
        shown@ == lined(lines),
        lines.len() == 3,
        lines[0] == "configuration: "@ + edit@.destination,
        lines[1] == "prior "@ + edit@.field + ": "@ + edit@.prior,
        lines[2] == "resulting "@ + edit@.field + ": "@ + edit@.result,
        selected@ == lined(selection_lines(selection@)),
{
    edit_lines(edit@)
}

/// What was wrong with the input exits with two, and what the file system or a publication did with one.
pub proof fn failed_authoring_exits_by_whose_fault_it_is(
    set: ConfigSetError,
    used: ConfigUseError,
    init: InitError,
    codes: (u8, u8, u8),
)
    requires
        call_ensures(ConfigSetError::exit_code, (&set,), codes.0),
        call_ensures(ConfigUseError::exit_code, (&used,), codes.1),
        call_ensures(InitError::exit_code, (&init,), codes.2),
    ensures
        codes.0 == 1 <==> set is Io || set is Published,
        codes.0 == 2 <==> set is Input,
        codes.1 == 1 <==> used is Io || used is InvalidPublished,
        codes.1 == 2 <==> used is Invalid || used is Collision || used is UnsupportedPlatform,
        codes.2 == 1 <==> init is Io || init is InvalidGeneratedBundle,
        codes.2 == 2 <==> init is AlreadyExists || init is UnsupportedPlatform,
{
}

/// A directory that cannot be determined is said on the error output alone, and exits with one.
pub proof fn unknown_directory_exits_with_one(message: &str, rendered: Rendered)
    requires
        call_ensures(current_directory_error, (message,), rendered),
    ensures
        rendered.code == 1,
        rendered.out@.len() == 0,
        opens(rendered.err@, "error: cannot determine current directory: "@),
        closes(rendered.err@, message@ + seq!['\n']),
{
    reveal_strlit("error: cannot determine current directory: ");
    reveal_strlit("error: ");
    reveal_strlit("cannot determine current directory: ");
    reveal_strlit("\n");
}

} // verus!
