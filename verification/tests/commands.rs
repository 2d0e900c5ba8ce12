use loadout::application::queries::{
    status, status_with_inspector, DeclaredProfile, DesiredResourcesReport, KnownResourcesReport,
    LoadedState, Observations, ProfileListReport, QueryError, Resolution, ResolverError,
    StatusActual, StatusDesired, StatusReport, StatusResource, StatusUnavailable,
};
use loadout::authoring::config_use::{prepare, ConfigUseError, UseReply, UseRequest};
use loadout::authoring::files::{CanonicalPath, EntryFacts, FileError, FileErrorKind};
use loadout::authoring::init::{initialize, initialize_with, InitError, InitReply};
use loadout::cli::apply::Confirmation;
use loadout::cli::authoring::{
    config_use_answer, config_use_confirmation, config_use_error, config_use_preview,
    current_directory_error, run_config_use, run_init,
};
use loadout::cli::commands::{
    accept, argument_output, load_error, query_exit_code, render_result, run_config,
    run_known_list, run_profile_list, run_resource_list, run_status, surroundings, Command,
    ConfigAnswer, ConfigCommand, LoadError, ProfileCommand, ResourceCommand, Surroundings,
};
use loadout::domain::desired::{ResolvedDesired, ResolvedResource};
use loadout::domain::file_link::ResolvedFileLink;
use loadout::domain::ids::{FullyQualifiedResourceId, ProfileId};
use loadout::domain::known::{KnownFileLink, KnownResource, KnownState};
use loadout::domain::paths::{Platform, ResolvedPath};

fn path(text: &str) -> ResolvedPath {
    ResolvedPath::new(text, Platform::Unix).unwrap()
}

#[test]
fn empty_paths_are_refused() {
    let plan = |config: Option<&str>| Command::Plan {
        config: config.map(str::to_string),
        root: None,
    };
    assert!(accept(plan(None)).is_ok());
    assert!(accept(plan(Some("a"))).is_ok());
    assert_eq!(
        accept(plan(Some(""))).unwrap_err(),
        "--config requires a path"
    );
    assert_eq!(
        accept(Command::Config(ConfigCommand::Use {
            path: String::new(),
            yes: true
        }))
        .unwrap_err(),
        "config use requires a path"
    );
    assert_eq!(
        accept(Command::Config(ConfigCommand::SetField {
            config: Some(String::new()),
            field: "default_profile".to_string(),
            value: "x".to_string(),
            yes: false
        }))
        .unwrap_err(),
        "--config requires a path"
    );
    let nowhere = || Some(String::new());
    for command in [
        Command::Status {
            config: nowhere(),
            root: None,
        },
        Command::Profile(ProfileCommand::List { config: nowhere() }),
        Command::Resource(ResourceCommand::List {
            config: nowhere(),
            root: None,
        }),
    ] {
        assert_eq!(accept(command).unwrap_err(), "--config requires a path");
    }
    assert!(accept(Command::Resource(ResourceCommand::ListKnown)).is_ok());
}

#[test]
fn help_goes_to_the_output_and_errors_do_not() {
    let help = argument_output("Usage: loadout\n", true, 2);
    assert_eq!(help.out, "Usage: loadout\n");
    assert_eq!(help.err, "");
    assert_eq!(help.code, 0);
    let error = argument_output("unexpected argument", false, 2);
    assert_eq!(error.out, "");
    assert_eq!(error.err, "input error: unexpected argument\n");
    assert_eq!(error.code, 2);
}

#[test]
fn a_difference_depends_on_no_configuration() {
    assert_eq!(surroundings(&Command::Diff), Surroundings::State);
    assert_eq!(
        surroundings(&Command::Resource(ResourceCommand::ListKnown)),
        Surroundings::State
    );
    assert_eq!(
        surroundings(&Command::Resource(ResourceCommand::List {
            config: None,
            root: None
        })),
        Surroundings::Machine
    );
    assert_eq!(
        surroundings(&Command::Init { dry_run: true }),
        Surroundings::CurrentDirectory
    );
    assert_eq!(
        surroundings(&Command::Plan {
            config: None,
            root: None
        }),
        Surroundings::Machine
    );
}

#[test]
fn errors_exit_by_whether_something_could_be_read() {
    let read = load_error(&LoadError::Read {
        message: "denied".to_string(),
    });
    assert_eq!(read.err, "error: denied\n");
    assert_eq!(read.code, 1);
    assert_eq!(
        load_error(&LoadError::Other {
            message: "no home".to_string()
        })
        .code,
        2
    );
    assert_eq!(query_exit_code(&QueryError::ConfigField("x".to_string())), 2);
    assert_eq!(
        query_exit_code(&QueryError::Inspection {
            message: "x".to_string()
        }),
        1
    );
    let rendered = render_result(Err(QueryError::Resolution(ResolverError::ReadProfile {
        message: "denied".to_string(),
    })));
    assert_eq!(rendered.code, 1);
    assert!(rendered.err.starts_with("error: "));
    let rendered = run_config(ConfigAnswer::Path {
        path: "/c".to_string(),
    });
    assert_eq!(rendered.out, "/c\n");
}

#[test]
fn an_initialization_tells_where_the_bundle_is() {
    for (dry_run, text) in [(true, "would create /w/.loadout\n")] {
        let session = initialize("/w", dry_run, 1, Platform::Unix, true);
        let session = initialize_with(
            session,
            InitReply::Looked(Err(FileError {
                kind: FileErrorKind::NotFound,
                message: String::new(),
            })),
        );
        let rendered = run_init(session.finish().unwrap());
        assert_eq!(rendered.out, text);
        assert_eq!(rendered.code, 0);
    }
    let rendered = run_init(Err(InitError::AlreadyExists {
        path: "/w/.loadout".to_string(),
    }));
    assert_eq!(
        rendered.err,
        "error: refusing to initialize because control directory already exists: /w/.loadout\n"
    );
    assert_eq!(rendered.code, 2);
    let rendered = current_directory_error("gone");
    assert_eq!(
        rendered.err,
        "error: cannot determine current directory: gone\n"
    );
    assert_eq!(rendered.code, 1);
}

#[test]
fn a_selection_is_shown_asked_for_and_confirmed() {
    let mut session = prepare(
        path("/r/loadout.yaml"),
        &path("/p/config.yaml"),
        Platform::Unix,
    );
    loop {
        let reply = match session.request() {
            UseRequest::Look { path } if path.ends_with(".yaml") => {
                UseReply::Looked(Ok(EntryFacts {
                    directory: false,
                    file: true,
                    symlink: false,
                }))
            }
            UseRequest::Look { .. } => UseReply::Looked(Ok(EntryFacts {
                directory: true,
                file: false,
                symlink: false,
            })),
            UseRequest::Canonicalize { path } => UseReply::Canonicalized(Ok(CanonicalPath {
                path,
                long_spelling: None,
            })),
            UseRequest::Read { .. } => {
                UseReply::Read(Ok("schema_version: 1\nconfig_path: ~/old\n".to_string()))
            }
            _ => break,
        };
        session = session.answer(reply);
    }
    let preparation = session.finish().unwrap().unwrap();
    assert_eq!(
        config_use_preview(&preparation),
        "runtime configuration: /r/loadout.yaml\nprior config_path: ~/old\nresulting config_path: /p/config.yaml\n"
    );
    assert_eq!(config_use_confirmation(true, false), Confirmation::Granted);
    assert_eq!(
        config_use_confirmation(false, false),
        Confirmation::Refused {
            message: "confirmation unavailable: non-interactive config use requires --yes\n"
                .to_string()
        }
    );
    assert_eq!(
        config_use_confirmation(false, true),
        Confirmation::Ask {
            prompt: "Use this portable configuration? [y/N] ".to_string()
        }
    );
    assert!(config_use_answer("Yes\n").is_none());
    let cancelled = config_use_answer("no\n").unwrap();
    assert_eq!(
        cancelled.err,
        "config use cancelled: confirmation not granted\n"
    );
    assert_eq!(cancelled.code, 2);
    let rendered = run_config_use("/p/config.yaml", Ok(()));
    assert_eq!(
        rendered.out,
        "selected portable configuration: /p/config.yaml\n"
    );
    let rendered = config_use_error(&ConfigUseError::UnsupportedPlatform);
    assert_eq!(rendered.code, 2);
    assert!(rendered.err.starts_with("error: config use requires"));
}

fn link() -> ResolvedFileLink {
    ResolvedFileLink::new(
        FullyQualifiedResourceId::new("base/git".to_string()),
        path("/s/git"),
        path("/h/git"),
    )
    .unwrap()
}

fn profile() -> ProfileId {
    ProfileId::new("base".to_string())
}

#[test]
fn a_status_exits_by_what_could_not_be_had() {
    let report = |unavailable: bool| StatusReport {
        desired: StatusDesired::Available {
            root_profile: profile(),
            resources: vec![StatusResource {
                resource_id: FullyQualifiedResourceId::new("base/git".to_string()),
                desired: Some(ResolvedResource::FileLink(link())),
                known: None,
                actual: StatusActual::Unavailable(StatusUnavailable::Observation {
                    message: "denied".to_string(),
                }),
            }],
        },
        inspection_initialization_error: None,
        has_unavailable_observation: unavailable,
        active_operation: None,
    };
    let rendered = run_status(Ok(report(true)));
    assert!(rendered.out.starts_with("status profile: base\n"));
    assert_eq!(rendered.err, "");
    assert_eq!(rendered.code, 1);
    assert_eq!(run_status(Ok(report(false))).code, 0);
    let rendered = run_status(Ok(StatusReport {
        desired: StatusDesired::Unavailable(QueryError::ConfigField("x".to_string())),
        inspection_initialization_error: None,
        has_unavailable_observation: false,
        active_operation: None,
    }));
    assert!(rendered.out.starts_with("desired_unavailable: "));
    assert_eq!(rendered.code, 2);
    let rendered = run_status(Err(QueryError::Inspection {
        message: "x".to_string(),
    }));
    assert_eq!(rendered.out, "");
    assert_eq!(rendered.code, 1);
}

#[test]
fn lists_are_written_to_the_output() {
    let rendered = run_profile_list(Ok(ProfileListReport {
        profiles: vec![DeclaredProfile {
            id: profile(),
            includes: vec![],
            resources: vec![],
        }],
    }));
    assert_eq!(rendered.out, "Profiles: 1\nbase\n");
    assert_eq!(rendered.code, 0);
    let rendered = run_resource_list(Ok(DesiredResourcesReport {
        root_profile: profile(),
        resources: vec![ResolvedResource::FileLink(link())],
    }));
    assert!(rendered.out.starts_with("Desired resources for base: 1\n"));
    assert!(rendered.out.contains("base/git"));
    let rendered = run_known_list(Ok(KnownResourcesReport {
        resources: vec![KnownResource::FileLink(KnownFileLink::from_resolved(&link()))],
    }));
    assert!(rendered.out.starts_with("Known resources: 1\n"));
    assert!(rendered.out.contains("base/git"));
    let wrong = || QueryError::ConfigField("x".to_string());
    for rendered in [
        run_profile_list(Err(wrong())),
        run_resource_list(Err(wrong())),
        run_known_list(Err(wrong())),
    ] {
        assert_eq!(rendered.out, "");
        assert_eq!(rendered.code, 2);
    }
}

#[test]
fn a_status_is_written_from_what_was_read_and_observed() {
    let known = KnownState::new(vec![KnownResource::FileLink(
        KnownFileLink::from_resolved(&link()),
    )])
    .unwrap();
    let draft = status(
        Ok(LoadedState {
            known,
            active_operation: None,
        }),
        Resolution::Resolved(ResolvedDesired::new(profile(), vec![]).unwrap()),
    )
    .unwrap();
    let report = status_with_inspector(
        draft,
        Observations::NoInspector {
            message: "no home".to_string(),
        },
    );
    let rendered = run_status(Ok(report));
    assert!(rendered.out.starts_with("status profile: base\n"));
    assert!(rendered.out.contains("base/git"));
    assert!(rendered.out.contains("no home"));
    assert_eq!(rendered.code, 1);
}
