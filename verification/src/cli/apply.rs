//! What an apply writes: its plan, the question, and what became of it.

use vstd::prelude::*;
use vstd::string::*;
use crate::application::apply::{ApplyFailure, ApplyFailureCause, ApplyReport, ApplyStage};
use crate::application::errors::ApplyError;
use crate::application::queries::{PlanReport, QueryError};
use crate::application::reconcile::ApplyAction;
use crate::cli::commands::{query_code, query_exit_code, render_result, rendered_error};
use crate::cli::render;
use crate::cli::render::{
    action_name, action_text, diagnostic_lines, entry_text, executable_text, plan_code,
    planned_lines, query_error, query_error_text, Rendered,
};
use crate::domain::ids::FullyQualifiedResourceId;
use crate::domain::plan::Plan;
use crate::state::operation::{entry_views, ActionStatus, EntryView, OperationRecord};
use crate::state::repository::{CommitFailureEffect, OperationOutcome};
use crate::text::{
    copy_of, decimal, lemma_lined_add, lined, lined_texts, texts, to_decimal, trim, trimmed,
};

verus! {

/// The name of a stage.
pub open spec fn stage_text(stage: ApplyStage) -> Seq<char> {
    match stage {
        ApplyStage::LockAndState => "LockAndState"@,
        ApplyStage::Recovery => "Recovery"@,
        ApplyStage::Resolution => "Resolution"@,
        ApplyStage::Planning => "Planning"@,
        ApplyStage::Preflight => "Preflight"@,
        ApplyStage::OperationCreation => "OperationCreation"@,
        ApplyStage::Execution => "Execution"@,
        ApplyStage::Closure => "Closure"@,
    }
}

fn stage_name(stage: ApplyStage) -> (name: &'static str)
    ensures
        name@ == stage_text(stage),
{
    match stage {
        ApplyStage::LockAndState => "LockAndState",
        ApplyStage::Recovery => "Recovery",
        ApplyStage::Resolution => "Resolution",
        ApplyStage::Planning => "Planning",
        ApplyStage::Preflight => "Preflight",
        ApplyStage::OperationCreation => "OperationCreation",
        ApplyStage::Execution => "Execution",
        ApplyStage::Closure => "Closure",
    }
}

/// The name of a recorded status.
pub open spec fn status_text(status: ActionStatus) -> Seq<char> {
    match status {
        ActionStatus::Pending => "Pending"@,
        ActionStatus::Running => "Running"@,
        ActionStatus::Succeeded => "Succeeded"@,
        ActionStatus::Failed => "Failed"@,
        ActionStatus::Skipped => "Skipped"@,
        ActionStatus::Uncertain => "Uncertain"@,
    }
}

fn status_name(status: ActionStatus) -> (name: &'static str)
    ensures
        name@ == status_text(status),
{
    match status {
        ActionStatus::Pending => "Pending",
        ActionStatus::Running => "Running",
        ActionStatus::Succeeded => "Succeeded",
        ActionStatus::Failed => "Failed",
        ActionStatus::Skipped => "Skipped",
        ActionStatus::Uncertain => "Uncertain",
    }
}

/// The exit code of a failed apply.
///
/// It is one as soon as anything was committed or a commit failed. Otherwise it is two for what a
/// user can put right: the input, an operation to be recovered, a check that failed.
pub open spec fn failure_code(failure: ApplyFailure) -> u8 {
    if failure.committed@.len() > 0 || failure.commit_failure is Some {
        1
    } else {
        match failure.cause {
            ApplyFailureCause::Input(error) => query_code(error),
            ApplyFailureCause::Lifecycle(error) => if failure.stage is Preflight || (
            failure.stage is Recovery && error is RecoveryRequired) {
                2
            } else {
                1
            },
        }
    }
}

/// The exit code of a failed apply.
pub fn failure_exit_code(failure: &ApplyFailure) -> (code: u8)
    ensures
        code == failure_code(*failure),
{
    if failure.committed.len() > 0 || failure.commit_failure.is_some() {
        return 1;
    }
    match &failure.cause {
        ApplyFailureCause::Input(error) => query_exit_code(error),
        ApplyFailureCause::Lifecycle(error) => match (failure.stage, error) {
            (ApplyStage::Preflight, _) => 2,
            (ApplyStage::Recovery, ApplyError::RecoveryRequired) => 2,
            _ => 1,
        },
    }
}

/// What stopped an apply, written out.
pub open spec fn cause_text(cause: ApplyFailureCause) -> Seq<char> {
    match cause {
        ApplyFailureCause::Input(error) => query_error_text(error),
        ApplyFailureCause::Lifecycle(error) => error.message(),
    }
}

/// The lines on the action that a failure is about.
pub open spec fn affected_lines(action: Option<ApplyAction>) -> Seq<Seq<char>> {
    match action {
        Some(action) => seq![
            "affected action: "@ + action_text(action.kind) + " "@ + action.resource_id@
                + match action.action_id {
                Some(id) => " ("@ + id@ + ")"@,
                None => Seq::empty(),
            },
        ],
        None => Seq::empty(),
    }
}

/// The lines on the plan of a failed apply: its actions, and then its obstacles.
pub open spec fn failed_plan_lines(plan: Option<Plan>) -> Seq<Seq<char>> {
    match plan {
        Some(plan) => seq!["plan: "@ + executable_text(plan@) + "; actions at failure:"@]
            + planned_lines(plan@) + diagnostic_lines(plan@),
        None => Seq::empty(),
    }
}

/// The lines on what was committed.
pub open spec fn committed_lines(committed: Seq<FullyQualifiedResourceId>) -> Seq<Seq<char>> {
    seq!["committed actions: "@ + decimal(committed.len())] + Seq::new(
        committed.len(),
        |i: int| "  "@ + committed[i]@,
    )
}

/// The lines on the recorded actions of an operation, in order.
pub open spec fn recorded_lines(entries: Seq<EntryView>) -> Seq<Seq<char>> {
    Seq::new(
        entries.len(),
        |i: int|
            entry_text(entries[i]) + "recorded status "@ + status_text(entries[i].action.status),
    )
}

/// The lines on what the repository holds of an operation.
pub open spec fn outcome_lines(operation: Option<OperationOutcome>) -> Seq<Seq<char>> {
    match operation {
        None => seq!["operation: unavailable (lock or state load failed)"@],
        Some(OperationOutcome::Absent) => seq!["operation: absent"@],
        Some(OperationOutcome::Retained(record)) => seq!["operation retained: "@ + record.id@]
            + recorded_lines(entry_views(record.actions@)),
        Some(OperationOutcome::Closed(record)) => seq!["operation closed: "@ + record.id@]
            + recorded_lines(entry_views(record.actions@)),
    }
}

/// The lines on a commit that failed.
pub open spec fn commit_lines(effect: Option<CommitFailureEffect>) -> Seq<Seq<char>> {
    match effect {
        Some(CommitFailureEffect::PreviousStateRetained) => seq![
            "commit failed: previous state retained"@,
        ],
        Some(CommitFailureEffect::ReplacedDurabilityUnconfirmed) => seq![
            "commit failed: state replaced; durability unconfirmed (recorded status is not confirmed durable)"@,
        ],
        None => Seq::empty(),
    }
}

/// The lines of a failed apply.
pub open spec fn failure_lines(failure: ApplyFailure) -> Seq<Seq<char>> {
    seq!["apply failed during "@ + stage_text(failure.stage) + ": "@ + cause_text(failure.cause)]
        + affected_lines(failure.affected_action) + failed_plan_lines(failure.plan)
        + committed_lines(failure.committed@) + outcome_lines(failure.operation) + commit_lines(
        failure.commit_failure,
    )
}

fn push_all(lines: &mut Vec<String>, more: &Vec<String>)
    ensures
        texts(final(lines)@) == texts(old(lines)@) + texts(more@),
{
    let ghost start = texts(lines@);
    let mut i: usize = 0;
    proof {
        assert(texts(more@).take(0) =~= Seq::<Seq<char>>::empty());
        assert(start + texts(more@).take(0) =~= start);
    }
    while i < more.len()
        invariant
            i <= more@.len(),
            start == texts(old(lines)@),
            texts(lines@) == start + texts(more@).take(i as int),
        decreases more.len() - i,
    {
        let ghost before = lines@;
        let line = copy_of(more[i].as_str());
        lines.push(line);
        proof {
            assert(texts(lines@) =~= texts(before).push(line@));
            assert(texts(more@).take(i + 1) =~= texts(more@).take(i as int).push(line@));
            assert(start + texts(more@).take(i + 1) =~= (start + texts(more@).take(
                i as int,
            )).push(line@));
        }
        i += 1;
    }
    assert(texts(more@).take(i as int) =~= texts(more@));
}

fn to_affected(action: &Option<ApplyAction>) -> (lines: Vec<String>)
    ensures
        texts(lines@) == affected_lines(*action),
{
    let mut lines: Vec<String> = Vec::new();
    match action {
        Some(action) => {
            let line = copy_of("affected action: ").concat(action_name(action.kind)).concat(
                " ",
            ).concat(action.resource_id.as_str());
            let suffix = match &action.action_id {
                Some(id) => copy_of(" (").concat(id.as_str()).concat(")"),
                None => String::new(),
            };
            lines.push(line.concat(suffix.as_str()));
            assert(texts(lines@) =~= affected_lines(Some(*action)));
        },
        None => {
            assert(texts(lines@) =~= Seq::<Seq<char>>::empty());
        },
    }
    lines
}

fn to_committed(committed: &Vec<FullyQualifiedResourceId>) -> (lines: Vec<String>)
    ensures
        texts(lines@) == committed_lines(committed@),
{
    let mut lines: Vec<String> = Vec::new();
    lines.push(copy_of("committed actions: ").concat(to_decimal(committed.len()).as_str()));
    let ghost whole = committed_lines(committed@);
    let mut i: usize = 0;
    while i < committed.len()
        invariant
            i <= committed@.len(),
            whole == committed_lines(committed@),
            lines@.len() == i + 1,
            forall|k: int| 0 <= k < lines@.len() ==> (#[trigger] lines@[k])@ == whole[k],
        decreases committed.len() - i,
    {
        lines.push(copy_of("  ").concat(committed[i].as_str()));
        i += 1;
    }
    assert(texts(lines@) =~= whole);
    lines
}

fn to_recorded(heading: &str, record: &OperationRecord) -> (lines: Vec<String>)
    ensures
        texts(lines@) == seq![heading@ + record.id@] + recorded_lines(
            entry_views(record.actions@),
        ),
{
    let mut lines: Vec<String> = Vec::new();
    lines.push(copy_of(heading).concat(record.id.as_str()));
    let ghost whole = seq![heading@ + record.id@] + recorded_lines(entry_views(record.actions@));
    let mut i: usize = 0;
    while i < record.actions.len()
        invariant
            i <= record.actions@.len(),
            whole == seq![heading@ + record.id@] + recorded_lines(entry_views(record.actions@)),
            lines@.len() == i + 1,
            forall|k: int| 0 <= k < lines@.len() ==> (#[trigger] lines@[k])@ == whole[k],
        decreases record.actions.len() - i,
    {
        let entry = &record.actions[i];
        let line = copy_of("  ").concat(entry.id.as_str()).concat(": ").concat(
            action_name(entry.action.kind()),
        ).concat(" ").concat(entry.action.resource_id().as_str()).concat(": ").concat(
            entry.action.target_path().as_path(),
        ).concat(": ").concat("recorded status ").concat(status_name(entry.action.status()));
        lines.push(line);
        assert(whole[i + 1] == recorded_lines(entry_views(record.actions@))[i as int]);
        i += 1;
    }
    assert(texts(lines@) =~= whole);
    lines
}

fn one_line(line: String) -> (lines: Vec<String>)
    ensures
        texts(lines@) == seq![line@],
{
    let mut lines: Vec<String> = Vec::new();
    lines.push(line);
    assert(texts(lines@) =~= seq![line@]);
    lines
}

fn to_outcome(operation: &Option<OperationOutcome>) -> (lines: Vec<String>)
    ensures
        texts(lines@) == outcome_lines(*operation),
{
    match operation {
        None => one_line(copy_of("operation: unavailable (lock or state load failed)")),
        Some(OperationOutcome::Absent) => one_line(copy_of("operation: absent")),
        Some(OperationOutcome::Retained(record)) => to_recorded("operation retained: ", record),
        Some(OperationOutcome::Closed(record)) => to_recorded("operation closed: ", record),
    }
}

fn to_commit(effect: &Option<CommitFailureEffect>) -> (lines: Vec<String>)
    ensures
        texts(lines@) == commit_lines(*effect),
{
    match effect {
        Some(CommitFailureEffect::PreviousStateRetained) => one_line(
            copy_of("commit failed: previous state retained"),
        ),
        Some(CommitFailureEffect::ReplacedDurabilityUnconfirmed) => one_line(
            copy_of(
                "commit failed: state replaced; durability unconfirmed (recorded status is not confirmed durable)",
            ),
        ),
        None => {
            let lines: Vec<String> = Vec::new();
            assert(texts(lines@) =~= Seq::<Seq<char>>::empty());
            lines
        },
    }
}

fn failed_plan(plan: &Option<Plan>) -> (text: String)
    ensures
        text@ == lined(failed_plan_lines(*plan)),
{
    match plan {
        Some(plan) => {
            let heading = copy_of("plan: ").concat(
                if plan.is_executable() {
                    "executable"
                } else {
                    "blocked"
                },
            ).concat("; actions at failure:");
            let ghost first = seq![heading@];
            let rendered = render::planned(plan);
            let top = lined_texts(&one_line(heading));
            proof {
                lemma_lined_add(first, planned_lines(plan@));
                lemma_lined_add(first + planned_lines(plan@), diagnostic_lines(plan@));
            }
            top.concat(rendered.out.as_str()).concat(rendered.err.as_str())
        },
        None => String::new(),
    }
}

/// A failed apply, written out.
pub fn failure_output(failure: &ApplyFailure) -> (text: String)
    ensures
        text@ == lined(failure_lines(*failure)),
{
    let cause = match &failure.cause {
        ApplyFailureCause::Input(error) => query_error(error),
        ApplyFailureCause::Lifecycle(error) => error.to_text(),
    };
    let mut top = one_line(
        copy_of("apply failed during ").concat(stage_name(failure.stage)).concat(": ").concat(
            cause.as_str(),
        ),
    );
    push_all(&mut top, &to_affected(&failure.affected_action));
    let middle = failed_plan(&failure.plan);
    let mut rest = to_committed(&failure.committed);
    push_all(&mut rest, &to_outcome(&failure.operation));
    push_all(&mut rest, &to_commit(&failure.commit_failure));
    proof {
        let a = texts(top@);
        let b = failed_plan_lines(failure.plan);
        let c = committed_lines(failure.committed@);
        let d = outcome_lines(failure.operation);
        let e = commit_lines(failure.commit_failure);
        lemma_lined_add(a, b);
        lemma_lined_add(a + b, texts(rest@));
        assert((a + b) + ((c + d) + e) =~= a + b + c + d + e);
    }
    lined_texts(&top).concat(middle.as_str()).concat(lined_texts(&rest).as_str())
}

/// The plan to be confirmed, written out.
pub fn present(plan: &Plan) -> (rendered: Rendered)
    ensures
        rendered.out@ == lined(seq!["executable plan"@] + planned_lines(plan@)),
        rendered.err@ == lined(diagnostic_lines(plan@)),
        rendered.code == plan_code(plan@),
{
    let rendered = render::planned(plan);
    let heading = lined_texts(&one_line(copy_of("executable plan")));
    proof {
        lemma_lined_add(seq!["executable plan"@], planned_lines(plan@));
    }
    Rendered {
        out: heading.concat(rendered.out.as_str()),
        err: rendered.err,
        code: rendered.code,
    }
}

/// How a question is settled before it is asked.
#[derive(Debug, PartialEq, Eq)]
pub enum Confirmation {
    Granted,
    Refused { message: String },
    Ask { prompt: String },
}

/// Whether an apply may go on: it may when told so beforehand, and it asks only where someone can
/// answer.
pub fn confirmation(yes: bool, interactive: bool) -> (confirmation: Confirmation)
    ensures
        yes ==> confirmation is Granted,
        !yes && !interactive ==> (confirmation matches Confirmation::Refused { message }
            && message@ == "confirmation unavailable: non-interactive apply requires --yes\n"@),
        !yes && interactive ==> (confirmation matches Confirmation::Ask { prompt } && prompt@
            == "Apply this plan? [y/N] "@),
{
    if yes {
        Confirmation::Granted
    } else if !interactive {
        Confirmation::Refused {
            message: copy_of("confirmation unavailable: non-interactive apply requires --yes\n"),
        }
    } else {
        Confirmation::Ask { prompt: copy_of("Apply this plan? [y/N] ") }
    }
}

/// Whether an answer is `y` or `yes`, in any case, with any white space around it.
pub open spec fn is_yes(response: Seq<char>) -> bool {
    let word = trimmed(response);
    ||| word.len() == 1 && (word[0] == 'y' || word[0] == 'Y')
    ||| word.len() == 3 && (word[0] == 'y' || word[0] == 'Y') && (word[1] == 'e' || word[1] == 'E')
        && (word[2] == 's' || word[2] == 'S')
}

/// Whether an answer grants what was asked.
pub fn accepts(response: &str) -> (yes: bool)
    ensures
        yes == is_yes(response@),
{
    let word = trim(response);
    if word.len() == 1 {
        word[0] == 'y' || word[0] == 'Y'
    } else if word.len() == 3 {
        (word[0] == 'y' || word[0] == 'Y') && (word[1] == 'e' || word[1] == 'E') && (word[2] == 's'
            || word[2] == 'S')
    } else {
        false
    }
}

/// What a dry run writes.
pub fn run_dry(outcome: Result<PlanReport, QueryError>) -> (rendered: Rendered)
    ensures
        match outcome {
            Ok(report) => {
                &&& rendered.out@ == lined(
                    seq![
                        "profile "@ + report.profile@ + ": "@ + executable_text(report.plan@)
                            + " plan"@,
                    ] + planned_lines(report.plan@),
                )
                &&& rendered.err@ == lined(diagnostic_lines(report.plan@))
                &&& rendered.code == plan_code(report.plan@)
            },
            Err(error) => rendered_error(rendered, error),
        },
{
    match outcome {
        Ok(report) => render_result(Ok(render::plan(&report))),
        Err(error) => render_result(Err(error)),
    }
}

/// What an apply writes at its end, and its exit code.
pub fn run(result: Result<ApplyReport, ApplyFailure>) -> (rendered: Rendered)
    ensures
        match result {
            Ok(ApplyReport::Applied { committed, .. }) => {
                &&& rendered.out@ == lined(
                    seq!["apply completed: "@ + decimal(committed@.len()) + " committed actions"@],
                )
                &&& rendered.err@ == Seq::<char>::empty()
                &&& rendered.code == 0
            },
            Ok(ApplyReport::Blocked { plan }) => {
                &&& rendered.out@ == lined(seq!["blocked plan"@] + planned_lines(plan@))
                &&& rendered.err@ == lined(diagnostic_lines(plan@))
                &&& rendered.code == plan_code(plan@)
            },
            Ok(ApplyReport::Declined { .. }) => {
                &&& rendered.out@ == Seq::<char>::empty()
                &&& rendered.err@ == lined(seq!["apply cancelled: confirmation not granted"@])
                &&& rendered.code == 2
            },
            Err(failure) => {
                &&& rendered.out@ == Seq::<char>::empty()
                &&& rendered.err@ == lined(failure_lines(failure))
                &&& rendered.code == failure_code(failure)
            },
        },
{
    match result {
        Ok(ApplyReport::Applied { committed, .. }) => Rendered {
            out: lined_texts(
                &one_line(
                    copy_of("apply completed: ").concat(
                        to_decimal(committed.len()).as_str(),
                    ).concat(" committed actions"),
                ),
            ),
            err: String::new(),
            code: 0,
        },
        Ok(ApplyReport::Blocked { plan }) => {
            let rendered = render::planned(&plan);
            let heading = lined_texts(&one_line(copy_of("blocked plan")));
            proof {
                lemma_lined_add(seq!["blocked plan"@], planned_lines(plan@));
            }
            Rendered {
                out: heading.concat(rendered.out.as_str()),
                err: rendered.err,
                code: rendered.code,
            }
        },
        Ok(ApplyReport::Declined { .. }) => Rendered {
            out: String::new(),
            err: lined_texts(&one_line(copy_of("apply cancelled: confirmation not granted"))),
            code: 2,
        },
        Err(failure) => Rendered {
            out: String::new(),
            err: failure_output(&failure),
            code: failure_exit_code(&failure),
        },
    }
}

/// A failure after a commit, or in one, never exits as if nothing had happened.
pub proof fn committed_failure_exits_with_one(failure: ApplyFailure)
    requires
        failure.committed@.len() > 0 || failure.commit_failure is Some,
    ensures
        failure_code(failure) == 1,
{
}

/// Every failure exits with one or two, and never with success.
pub proof fn failure_never_exits_with_success(failure: ApplyFailure)
    ensures
        failure_code(failure) == 1 || failure_code(failure) == 2,
{
}

} // verus!
