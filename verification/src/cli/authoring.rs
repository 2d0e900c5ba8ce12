//! What the commands that write a user's files tell: the preview, the question, and what became of
//! them.

use vstd::prelude::*;
use vstd::string::*;
use crate::authoring::config_set::{ConfigSetError, PreparationView, SetPreparation};
use crate::authoring::config_use::{ConfigUseError, SelectionView, UsePreparation};
use crate::authoring::init::{InitError, InitReport};
use crate::cli::apply::{accepts, is_yes, Confirmation};
use crate::cli::commands::{write_error, writes_error};
use crate::cli::render::Rendered;
use crate::text::{copy_of, lined, lined_texts, texts};

verus! {

/// The line on a bundle.
pub open spec fn bundle_line(report: InitReport) -> Seq<char> {
    if report@.dry_run {
        "would create "@ + report@.root
    } else {
        "initialized "@ + report@.root
    }
}

/// What an initialization writes.
pub fn run_init(result: Result<InitReport, InitError>) -> (rendered: Rendered)
    ensures
        match result {
            Ok(report) => {
                &&& rendered.out@ == bundle_line(report) + "\n"@
                &&& rendered.err@ == Seq::<char>::empty()
                &&& rendered.code == 0
            },
            Err(error) => writes_error(
                rendered,
                error.message(),
                if error is AlreadyExists || error is UnsupportedPlatform {
                    2
                } else {
                    1
                },
            ),
        },
{
    match result {
        Ok(report) => {
            let start = if report.dry_run() {
                "would create "
            } else {
                "initialized "
            };
            let err = String::new();
            assert(err@ =~= Seq::<char>::empty());
            Rendered { out: copy_of(start).concat(report.root()).concat("\n"), err, code: 0 }
        },
        Err(error) => write_error(error.to_text().as_str(), error.exit_code()),
    }
}

/// What is written when the current directory could not be had.
pub fn current_directory_error(message: &str) -> (rendered: Rendered)
    ensures
        writes_error(rendered, "cannot determine current directory: "@ + message@, 1),
{
    let text = copy_of("cannot determine current directory: ").concat(message);
    write_error(text.as_str(), 1)
}

/// The lines that show a selection before it is published.
pub open spec fn selection_lines(selection: SelectionView) -> Seq<Seq<char>> {
    seq![
        "runtime configuration: "@ + selection.destination,
        "prior config_path: "@ + match selection.prior {
            Some(prior) => prior,
            None => "<absent>"@,
        },
        "resulting config_path: "@ + selection.selected,
    ]
}

/// The preview of a selection.
pub fn config_use_preview(preparation: &UsePreparation) -> (text: String)
    ensures
        text@ == lined(selection_lines(preparation@)),
{
    let prior = match preparation.prior() {
        Some(prior) => copy_of(prior),
        None => copy_of("<absent>"),
    };
    let mut lines: Vec<String> = Vec::new();
    lines.push(copy_of("runtime configuration: ").concat(preparation.destination()));
    lines.push(copy_of("prior config_path: ").concat(prior.as_str()));
    lines.push(copy_of("resulting config_path: ").concat(preparation.selected_path()));
    assert(texts(lines@) =~= selection_lines(preparation@));
    lined_texts(&lines)
}

/// Whether a selection may be published: it may when told so beforehand, and it is asked only where
/// someone can answer.
pub fn config_use_confirmation(yes: bool, interactive: bool) -> (confirmation: Confirmation)
    ensures
        yes ==> confirmation is Granted,
        !yes && !interactive ==> (confirmation matches Confirmation::Refused { message }
            && message@
            == "confirmation unavailable: non-interactive config use requires --yes\n"@),
        !yes && interactive ==> (confirmation matches Confirmation::Ask { prompt } && prompt@
            == "Use this portable configuration? [y/N] "@),
{
    if yes {
        Confirmation::Granted
    } else if !interactive {
        Confirmation::Refused {
            message: copy_of(
                "confirmation unavailable: non-interactive config use requires --yes\n",
            ),
        }
    } else {
        Confirmation::Ask { prompt: copy_of("Use this portable configuration? [y/N] ") }
    }
}

/// Takes the answer to the question. One that does not grant it cancels the selection.
pub fn config_use_answer(response: &str) -> (cancelled: Option<Rendered>)
    ensures
        match cancelled {
            None => is_yes(response@),
            Some(rendered) => {
                &&& !is_yes(response@)
                &&& rendered.out@ == Seq::<char>::empty()
                &&& rendered.err@ == "config use cancelled: confirmation not granted\n"@
                &&& rendered.code == 2
            },
        },
{
    if accepts(response) {
        None
    } else {
        Some(not_confirmed("config use cancelled: confirmation not granted\n"))
    }
}

/// The exit code of a selection that failed.
pub open spec fn config_use_code(error: ConfigUseError) -> u8 {
    if error is Io || error is InvalidPublished {
        1
    } else {
        2
    }
}

/// What a selection that failed writes.
pub fn config_use_error(error: &ConfigUseError) -> (rendered: Rendered)
    ensures
        writes_error(rendered, error.message(), config_use_code(*error)),
{
    write_error(error.to_text().as_str(), error.exit_code())
}

/// What a publication of a selection writes.
pub fn run_config_use(selected: &str, result: Result<(), ConfigUseError>) -> (rendered: Rendered)
    ensures
        match result {
            Ok(_) => {
                &&& rendered.out@ == "selected portable configuration: "@ + selected@ + "\n"@
                &&& rendered.err@ == Seq::<char>::empty()
                &&& rendered.code == 0
            },
            Err(error) => writes_error(rendered, error.message(), config_use_code(error)),
        },
{
    match result {
        Ok(_) => {
            let err = String::new();
            assert(err@ =~= Seq::<char>::empty());
            Rendered {
                out: copy_of("selected portable configuration: ").concat(selected).concat("\n"),
                err,
                code: 0,
            }
        },
        Err(error) => config_use_error(&error),
    }
}

/// What is written where a question could not be asked, or was not granted.
pub fn not_confirmed(message: &str) -> (rendered: Rendered)
    ensures
        rendered.out@ == Seq::<char>::empty(),
        rendered.err@ == message@,
        rendered.code == 2,
{
    let out = String::new();
    assert(out@ =~= Seq::<char>::empty());
    Rendered { out, err: copy_of(message), code: 2 }
}

/// The lines that show an edit before it is published.
pub open spec fn edit_lines(edit: PreparationView) -> Seq<Seq<char>> {
    seq![
        "configuration: "@ + edit.destination,
        "prior "@ + edit.field + ": "@ + edit.prior,
        "resulting "@ + edit.field + ": "@ + edit.result,
    ]
}

/// The preview of an edit.
pub fn config_set_preview(preparation: &SetPreparation) -> (text: String)
    ensures
        text@ == lined(edit_lines(preparation@)),
{
    let mut lines: Vec<String> = Vec::new();
    lines.push(copy_of("configuration: ").concat(preparation.destination()));
    lines.push(
        copy_of("prior ").concat(preparation.field()).concat(": ").concat(preparation.prior()),
    );
    lines.push(
        copy_of("resulting ").concat(preparation.field()).concat(": ").concat(
            preparation.result(),
        ),
    );
    assert(texts(lines@) =~= edit_lines(preparation@));
    lined_texts(&lines)
}

/// Whether an edit may be published: it may when told so beforehand, and it is asked only where
/// someone can answer.
pub fn config_set_confirmation(yes: bool, interactive: bool) -> (confirmation: Confirmation)
    ensures
        yes ==> confirmation is Granted,
        !yes && !interactive ==> (confirmation matches Confirmation::Refused { message }
            && message@
            == "confirmation unavailable: non-interactive config set requires --yes\n"@),
        !yes && interactive ==> (confirmation matches Confirmation::Ask { prompt } && prompt@
            == "Set this configuration field? [y/N] "@),
{
    if yes {
        Confirmation::Granted
    } else if !interactive {
        Confirmation::Refused {
            message: copy_of(
                "confirmation unavailable: non-interactive config set requires --yes\n",
            ),
        }
    } else {
        Confirmation::Ask { prompt: copy_of("Set this configuration field? [y/N] ") }
    }
}

/// Takes the answer to the question. One that does not grant it cancels the edit.
pub fn config_set_answer(response: &str) -> (cancelled: Option<Rendered>)
    ensures
        match cancelled {
            None => is_yes(response@),
            Some(rendered) => {
                &&& !is_yes(response@)
                &&& rendered.out@ == Seq::<char>::empty()
                &&& rendered.err@ == "config set cancelled: confirmation not granted\n"@
                &&& rendered.code == 2
            },
        },
{
    if accepts(response) {
        None
    } else {
        Some(not_confirmed("config set cancelled: confirmation not granted\n"))
    }
}

/// What an edit that failed writes.
pub fn config_set_error(error: &ConfigSetError) -> (rendered: Rendered)
    ensures
        writes_error(
            rendered,
            error.message(),
            if error is Input {
                2
            } else {
                1
            },
        ),
{
    write_error(error.to_text().as_str(), error.exit_code())
}

/// What a publication of an edit writes.
pub fn run_config_set(field: &str, result: Result<(), ConfigSetError>) -> (rendered: Rendered)
    ensures
        match result {
            Ok(_) => {
                &&& rendered.out@ == "set "@ + field@ + "\n"@
                &&& rendered.err@ == Seq::<char>::empty()
                &&& rendered.code == 0
            },
            Err(error) => writes_error(
                rendered,
                error.message(),
                if error is Input {
                    2
                } else {
                    1
                },
            ),
        },
{
    match result {
        Ok(_) => {
            let err = String::new();
            assert(err@ =~= Seq::<char>::empty());
            Rendered { out: copy_of("set ").concat(field).concat("\n"), err, code: 0 }
        },
        Err(error) => config_set_error(&error),
    }
}

} // verus!
