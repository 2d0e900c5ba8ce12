//! The commands, and what they write when they cannot be carried out.

use vstd::prelude::*;
use vstd::string::*;
use crate::application::queries::{
    row_views, status, status_with_inspector, ConfigurationReport, ConfigurationValueReport,
    DesiredResourcesReport, KnownResourcesReport, LoadedState, Observations, ProfileListReport,
    QueryError, Resolution, StatusDesired, StatusDraft, StatusReport, StatusRows,
};
use crate::cli::render;
use crate::cli::render::{
    default_profile_line, desired_resources_lines, known_resources_lines, profile_list_lines,
    query_error, query_error_text, reports_effects, resolver_code, resolver_exit_code,
    status_lines, store_line, value_line, Rendered,
};
use crate::domain::desired::ResolvedDesired;
use crate::state::repository::StateRepositoryError;
use crate::text::{copy_of, lined};

verus! {

/// A command with its arguments.
#[derive(Debug, PartialEq, Eq)]
pub enum Command {
    Init { dry_run: bool },
    Validate { config: Option<String>, root: Option<String>, all: bool },
    Plan { config: Option<String>, root: Option<String> },
    Apply { config: Option<String>, root: Option<String>, yes: bool, dry_run: bool },
    Config(ConfigCommand),
    Diff,
    Status { config: Option<String>, root: Option<String> },
    Profile(ProfileCommand),
    Resource(ResourceCommand),
}

/// A command on declared profiles with its arguments.
#[derive(Debug, PartialEq, Eq)]
pub enum ProfileCommand {
    List { config: Option<String> },
}

/// A command on resources with its arguments.
#[derive(Debug, PartialEq, Eq)]
pub enum ResourceCommand {
    /// The desired resources of a root profile.
    List { config: Option<String>, root: Option<String> },
    /// The recorded resources.
    ListKnown,
}

/// A configuration command with its arguments.
#[derive(Debug, PartialEq, Eq)]
pub enum ConfigCommand {
    Path { config: Option<String>, system: bool },
    List { config: Option<String> },
    Get { config: Option<String>, field: String },
    Use { path: String, yes: bool },
    SetField { config: Option<String>, field: String, value: String, yes: bool },
}

impl ConfigCommand {
    /// The selected configuration file.
    pub open spec fn selected(self) -> Option<Seq<char>> {
        match self {
            ConfigCommand::Path { config: Some(config), .. } => Some(config@),
            ConfigCommand::List { config: Some(config) } => Some(config@),
            ConfigCommand::Get { config: Some(config), .. } => Some(config@),
            ConfigCommand::SetField { config: Some(config), .. } => Some(config@),
            _ => None,
        }
    }

    /// The selected configuration file.
    pub fn config(&self) -> (config: Option<&String>)
        ensures
            match config {
                Some(config) => self.selected() == Some(config@),
                None => self.selected() is None,
            },
    {
        match self {
            ConfigCommand::Path { config: Some(config), .. } => Some(config),
            ConfigCommand::List { config: Some(config) } => Some(config),
            ConfigCommand::Get { config: Some(config), .. } => Some(config),
            ConfigCommand::SetField { config: Some(config), .. } => Some(config),
            _ => None,
        }
    }
}

impl Command {
    /// The selected configuration file.
    pub open spec fn selected(self) -> Option<Seq<char>> {
        match self {
            Command::Validate { config: Some(config), .. } => Some(config@),
            Command::Plan { config: Some(config), .. } => Some(config@),
            Command::Apply { config: Some(config), .. } => Some(config@),
            Command::Config(command) => command.selected(),
            Command::Status { config: Some(config), .. } => Some(config@),
            Command::Profile(ProfileCommand::List { config: Some(config) }) => Some(config@),
            Command::Resource(ResourceCommand::List { config: Some(config), .. }) => Some(config@),
            _ => None,
        }
    }

    /// The selected configuration file.
    pub fn config(&self) -> (config: Option<&String>)
        ensures
            match config {
                Some(config) => self.selected() == Some(config@),
                None => self.selected() is None,
            },
    {
        match self {
            Command::Validate { config: Some(config), .. } => Some(config),
            Command::Plan { config: Some(config), .. } => Some(config),
            Command::Apply { config: Some(config), .. } => Some(config),
            Command::Config(command) => command.config(),
            Command::Status { config: Some(config), .. } => Some(config),
            Command::Profile(ProfileCommand::List { config: Some(config) }) => Some(config),
            Command::Resource(ResourceCommand::List { config: Some(config), .. }) => Some(config),
            _ => None,
        }
    }
}

/// Why the arguments of a command are refused: a path that is given may not be empty.
pub open spec fn refusal(command: Command) -> Option<Seq<char>> {
    if command.selected() matches Some(config) && config.len() == 0 {
        Some("--config requires a path"@)
    } else if command matches Command::Config(ConfigCommand::Use { path, .. }) && path@.len() == 0 {
        Some("config use requires a path"@)
    } else {
        None
    }
}

fn is_empty(text: &String) -> (empty: bool)
    ensures
        empty == (text@.len() == 0),
{
    text.as_str().unicode_len() == 0
}

/// A command whose arguments are acceptable, or the reason why they are not.
pub fn accept(command: Command) -> (outcome: Result<Command, String>)
    ensures
        match refusal(command) {
            None => outcome == Ok::<Command, String>(command),
            Some(message) => outcome matches Err(text) && text@ == message,
        },
{
    if let Some(config) = command.config() {
        if is_empty(config) {
            return Err(copy_of("--config requires a path"));
        }
    }
    if let Command::Config(ConfigCommand::Use { path, .. }) = &command {
        if is_empty(path) {
            return Err(copy_of("config use requires a path"));
        }
    }
    Ok(command)
}

/// What is written of arguments that make no command. Help and version are what was asked for, and
/// anything else is an error of the input.
pub fn argument_output(text: &str, asked_for: bool, code: u8) -> (rendered: Rendered)
    ensures
        asked_for ==> rendered.out@ == text@ && rendered.err@ == Seq::<char>::empty()
            && rendered.code == 0,
        !asked_for ==> rendered.out@ == Seq::<char>::empty() && rendered.err@ == "input error: "@
            + text@ + "\n"@ && rendered.code == code,
{
    let nothing = String::new();
    assert(nothing@ =~= Seq::<char>::empty());
    if asked_for {
        Rendered { out: copy_of(text), err: nothing, code: 0 }
    } else {
        Rendered { out: nothing, err: copy_of("input error: ").concat(text).concat("\n"), code }
    }
}

/// What a command needs to know of the machine before it starts.
#[derive(Clone, Copy, Debug, PartialEq, Eq, Structural)]
pub enum Surroundings {
    CurrentDirectory,
    /// The home directory and the state, and nothing of the configuration.
    State,
    /// The home directory, the state, and the runtime configuration.
    Machine,
}

/// What a command needs to know of the machine before it starts: neither the comparison with the
/// recorded state nor the list of what is recorded depends on any configuration.
pub fn surroundings(command: &Command) -> (needed: Surroundings)
    ensures
        needed == match *command {
            Command::Init { .. } => Surroundings::CurrentDirectory,
            Command::Diff => Surroundings::State,
            Command::Resource(ResourceCommand::ListKnown) => Surroundings::State,
            _ => Surroundings::Machine,
        },
{
    match command {
        Command::Init { .. } => Surroundings::CurrentDirectory,
        Command::Diff => Surroundings::State,
        Command::Resource(ResourceCommand::ListKnown) => Surroundings::State,
        _ => Surroundings::Machine,
    }
}

/// Why the paths of the machine could not be had.
#[derive(Debug, PartialEq, Eq)]
pub enum LoadError {
    Read { message: String },
    CurrentDirectory { message: String },
    Other { message: String },
}

impl LoadError {
    /// What the error says.
    pub open spec fn message(self) -> Seq<char> {
        match self {
            LoadError::Read { message } => message@,
            LoadError::CurrentDirectory { message } => message@,
            LoadError::Other { message } => message@,
        }
    }

    /// What the error says.
    pub fn to_text(&self) -> (text: String)
        ensures
            text@ == self.message(),
    {
        match self {
            LoadError::Read { message } => copy_of(message.as_str()),
            LoadError::CurrentDirectory { message } => copy_of(message.as_str()),
            LoadError::Other { message } => copy_of(message.as_str()),
        }
    }
}

/// What is written of an error, and its exit code.
pub open spec fn writes_error(rendered: Rendered, message: Seq<char>, code: u8) -> bool {
    &&& rendered.out@ == Seq::<char>::empty()
    &&& rendered.err@ == "error: "@ + message + "\n"@
    &&& rendered.code == code
}

pub(crate) fn write_error(message: &str, code: u8) -> (rendered: Rendered)
    ensures
        writes_error(rendered, message@, code),
{
    Rendered {
        out: String::new(),
        err: copy_of("error: ").concat(message).concat("\n"),
        code,
    }
}

/// Why the paths of the machine could not be had, written out.
pub fn load_error(error: &LoadError) -> (rendered: Rendered)
    ensures
        writes_error(
            rendered,
            error.message(),
            if error is Other {
                2
            } else {
                1
            },
        ),
{
    let code = match error {
        LoadError::Read { .. } => 1u8,
        LoadError::CurrentDirectory { .. } => 1u8,
        LoadError::Other { .. } => 2u8,
    };
    write_error(error.to_text().as_str(), code)
}

/// The exit code of a query error: one for what could not be read, two for what is wrong.
pub open spec fn query_code(error: QueryError) -> u8 {
    match error {
        QueryError::ConfigurationRead { .. } => 1,
        QueryError::State(_) => 1,
        QueryError::Inspection { .. } => 1,
        QueryError::Resolution(error) => resolver_code(error),
        QueryError::Configuration { .. } => 2,
        QueryError::ConfigField(_) => 2,
    }
}

/// The exit code of a query error.
pub fn query_exit_code(error: &QueryError) -> (code: u8)
    ensures
        code == query_code(*error),
{
    match error {
        QueryError::ConfigurationRead { .. } => 1,
        QueryError::State(_) => 1,
        QueryError::Inspection { .. } => 1,
        QueryError::Resolution(error) => resolver_exit_code(error),
        QueryError::Configuration { .. } => 2,
        QueryError::ConfigField(_) => 2,
    }
}

/// Whether a query error is written out with its exit code.
pub open spec fn rendered_error(rendered: Rendered, error: QueryError) -> bool {
    writes_error(rendered, query_error_text(error), query_code(error))
}

/// What a query writes: its report, or its error.
pub fn render_result(result: Result<Rendered, QueryError>) -> (rendered: Rendered)
    ensures
        match result {
            Ok(report) => rendered == report,
            Err(error) => rendered_error(rendered, error),
        },
{
    match result {
        Ok(report) => report,
        Err(error) => write_error(query_error(&error).as_str(), query_exit_code(&error)),
    }
}

/// What came of a configuration command that only reads.
#[derive(Debug)]
pub enum ConfigAnswer {
    /// The paths of the machine, or the selected configuration, could not be had.
    Unselected(LoadError),
    Path { path: String },
    Listed(Result<ConfigurationReport, QueryError>),
    Got { value: Result<ConfigurationValueReport, QueryError>, field: String },
}

/// What a configuration command that only reads writes.
pub fn run_config(answer: ConfigAnswer) -> (rendered: Rendered)
    ensures
        match answer {
            ConfigAnswer::Unselected(error) => writes_error(
                rendered,
                error.message(),
                if error is Other {
                    2
                } else {
                    1
                },
            ),
            ConfigAnswer::Path { path } => rendered.out@ == path@ + "\n"@ && rendered.err@
                == Seq::<char>::empty() && rendered.code == 0,
            ConfigAnswer::Listed(Ok(report)) => rendered.out@ == lined(
                seq![
                    "configuration: "@ + report.configuration_path@,
                    default_profile_line(report.default_profile),
                ] + Seq::new(report.stores@.len(), |i: int| store_line(report.stores@[i])),
            ) && rendered.err@ == Seq::<char>::empty() && rendered.code == 0,
            ConfigAnswer::Listed(Err(error)) => rendered_error(rendered, error),
            ConfigAnswer::Got { value: Ok(report), field } => rendered.out@ == lined(
                seq![
                    "configuration: "@ + report.configuration_path@,
                    value_line(report.value, field@),
                ],
            ) && rendered.err@ == Seq::<char>::empty() && rendered.code == 0,
            ConfigAnswer::Got { value: Err(error), .. } => rendered_error(rendered, error),
        },
{
    match answer {
        ConfigAnswer::Unselected(error) => load_error(&error),
        ConfigAnswer::Path { path } => render::config_path(path.as_str()),
        ConfigAnswer::Listed(Ok(report)) => render_result(Ok(render::config_list(&report))),
        ConfigAnswer::Listed(Err(error)) => render_result(Err(error)),
        ConfigAnswer::Got { value: Ok(report), field } => render_result(
            Ok(render::config_get(&report, field.as_str())),
        ),
        ConfigAnswer::Got { value: Err(error), .. } => render_result(Err(error)),
    }
}

/// Whether a text is written to the output, with an exit code.
pub open spec fn writes_text(rendered: Rendered, text: Seq<char>, code: u8) -> bool {
    &&& rendered.out@ == text
    &&& rendered.err@ == Seq::<char>::empty()
    &&& rendered.code == code
}

fn write_text(text: String, code: u8) -> (rendered: Rendered)
    ensures
        writes_text(rendered, text@, code),
{
    let err = String::new();
    assert(err@ =~= Seq::<char>::empty());
    Rendered { out: text, err, code }
}

/// The exit code of a status: that of the error where the declaration is not available, and one
/// where a target could not be observed.
pub open spec fn status_code(report: StatusReport) -> u8 {
    match report.desired {
        StatusDesired::Unavailable(error) => query_code(error),
        StatusDesired::Available { .. } => if report.has_unavailable_observation {
            1
        } else {
            0
        },
    }
}

/// Every status can be written: whatever was read, resolved and observed, each resource of the report
/// is desired or recorded.
pub proof fn status_has_effects(
    state: Result<LoadedState, StateRepositoryError>,
    resolution: Resolution<ResolvedDesired>,
    draft: StatusDraft,
    observations: Observations,
    report: StatusReport,
)
    requires
        call_ensures(status, (state, resolution), Ok::<StatusDraft, QueryError>(draft)),
        call_ensures(status_with_inspector, (draft, observations), report),
    ensures
        reports_effects(report),
{
    if let StatusDesired::Available { resources, .. } = report.desired {
        if let StatusRows::Available { rows, .. } = draft.desired {
            let views = row_views(rows@);
            assert(views.len() == rows@.len());
            assert forall|i: int| 0 <= i < resources@.len() implies (
            #[trigger] resources@[i]).desired is Some || resources@[i].known is Some by {
                assert(views[i].desired is Some || views[i].known is Some);
                assert(views[i] == rows@[i]@);
            }
        }
    }
}

/// What a status writes.
pub fn run_status(result: Result<StatusReport, QueryError>) -> (rendered: Rendered)
    requires
        result matches Ok(report) ==> reports_effects(report),
    ensures
        match result {
            Ok(report) => writes_text(rendered, lined(status_lines(report)), status_code(report)),
            Err(error) => rendered_error(rendered, error),
        },
{
    match result {
        Ok(report) => {
            let code = match &report.desired {
                StatusDesired::Unavailable(error) => query_exit_code(error),
                StatusDesired::Available { .. } => if report.has_unavailable_observation {
                    1u8
                } else {
                    0u8
                },
            };
            write_text(render::status(&report), code)
        },
        Err(error) => render_result(Err(error)),
    }
}

/// What a list of declared profiles writes.
pub fn run_profile_list(result: Result<ProfileListReport, QueryError>) -> (rendered: Rendered)
    ensures
        match result {
            Ok(report) => writes_text(rendered, lined(profile_list_lines(report)), 0),
            Err(error) => rendered_error(rendered, error),
        },
{
    match result {
        Ok(report) => write_text(render::profile_list(&report), 0),
        Err(error) => render_result(Err(error)),
    }
}

/// What a list of desired resources writes.
pub fn run_resource_list(result: Result<DesiredResourcesReport, QueryError>) -> (rendered: Rendered)
    ensures
        match result {
            Ok(report) => writes_text(rendered, lined(desired_resources_lines(report)), 0),
            Err(error) => rendered_error(rendered, error),
        },
{
    match result {
        Ok(report) => write_text(render::desired_resources(&report), 0),
        Err(error) => render_result(Err(error)),
    }
}

/// What a list of recorded resources writes.
pub fn run_known_list(result: Result<KnownResourcesReport, QueryError>) -> (rendered: Rendered)
    ensures
        match result {
            Ok(report) => writes_text(rendered, lined(known_resources_lines(report)), 0),
            Err(error) => rendered_error(rendered, error),
        },
{
    match result {
        Ok(report) => write_text(render::known_resources(&report), 0),
        Err(error) => render_result(Err(error)),
    }
}

} // verus!
