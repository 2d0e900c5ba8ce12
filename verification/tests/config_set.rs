use loadout::authoring::config_set::{
    prefixes, prepare, publish, verify_parent_association, ConfigSetError, PreparationSession, ReplaceFailure,
    SetPreparation, SetReply, SetRequest,
};
use loadout::authoring::editing::{edit, Edited};
use loadout::authoring::files::{CanonicalPath, EntryFacts, FileError, FileErrorKind};
use loadout::cli::apply::Confirmation;
use loadout::cli::authoring::{
    config_set_answer, config_set_confirmation, config_set_error, config_set_preview,
    not_confirmed, run_config_set,
};
use loadout::domain::paths::{Platform, ResolvedPath};
use std::collections::BTreeMap;

const DOCUMENT: &str = "# heading\nschema_version: 2 # schema note\ndefault_profile: base # selected profile\nprofile_discovery:\n  paths: [profiles]\nstores:\n  files:\n    type: local\n    properties:\n      path: ../store # source root\n";

fn stores() -> Vec<String> {
    vec!["files".to_string()]
}

#[test]
fn edits_only_the_supported_default_profile_scalar() {
    let Edited { candidate, prior } =
        edit(DOCUMENT, &stores(), "default_profile", "work").unwrap();

    assert_eq!(prior, "base");
    assert_eq!(
        candidate,
        "# heading\nschema_version: 2 # schema note\ndefault_profile: \"work\" # selected profile\nprofile_discovery:\n  paths: [profiles]\nstores:\n  files:\n    type: local\n    properties:\n      path: ../store # source root\n"
    );
}

#[test]
fn edits_only_the_selected_store_path_scalar() {
    let Edited { candidate, prior } = edit(
        DOCUMENT,
        &stores(),
        "stores.files.properties.path",
        "../other store",
    )
    .unwrap();

    assert_eq!(prior, "../store");
    assert_eq!(
        candidate,
        "# heading\nschema_version: 2 # schema note\ndefault_profile: base # selected profile\nprofile_discovery:\n  paths: [profiles]\nstores:\n  files:\n    type: local\n    properties:\n      path: \"../other store\" # source root\n"
    );
}

#[test]
fn rejects_presentation_it_cannot_edit_without_collateral_changes() {
    let document = DOCUMENT.replace("path: ../store", "path: |\n        ../store");

    assert!(edit(
        &document,
        &stores(),
        "stores.files.properties.path",
        "other"
    )
    .is_err());
}

#[test]
fn every_character_of_a_value_is_written_as_json_has_it() {
    let Edited { candidate, .. } =
        edit("default_profile: x\n", &vec![], "default_profile", "a\"b\\c\n\u{8}\u{1}\u{e9}")
            .unwrap();
    assert_eq!(
        candidate,
        "default_profile: \"a\\\"b\\\\c\\n\\b\\u0001\u{e9}\"\n"
    );
}

#[test]
fn an_edited_scalar_is_found_and_replaced_again() {
    for value in ["plain", "with # mark", "quo\"te", "back\\slash", "it's"] {
        let first = edit(DOCUMENT, &stores(), "default_profile", value).unwrap();
        let second = edit(&first.candidate, &stores(), "default_profile", "base").unwrap();
        let third = edit(DOCUMENT, &stores(), "default_profile", "base").unwrap();
        assert_eq!(second.candidate, third.candidate, "{value:?}");
    }
    let first = edit(DOCUMENT, &stores(), "default_profile", "work").unwrap();
    let second = edit(&first.candidate, &stores(), "default_profile", "base").unwrap();
    assert_eq!(second.prior, "\"work\"");
}

#[test]
fn an_edited_store_path_is_found_and_replaced_again() {
    let field = "stores.files.properties.path";
    for value in ["../other", "with # mark", "quo\"te", "back\\slash", "path: x", "a\nb"] {
        let first = edit(DOCUMENT, &stores(), field, value).unwrap();
        assert_eq!(first.prior, "../store");
        let second = edit(&first.candidate, &stores(), field, "../next").unwrap();
        let third = edit(DOCUMENT, &stores(), field, "../next").unwrap();
        assert_eq!(second.candidate, third.candidate, "{value:?}");
    }
    let first = edit(DOCUMENT, &stores(), field, "../other").unwrap();
    let second = edit(&first.candidate, &stores(), field, "../next").unwrap();
    assert_eq!(second.prior, "\"../other\"");
}

#[test]
fn an_absent_default_profile_gets_a_line_of_its_own() {
    let Edited { candidate, prior } = edit(
        "schema_version: 2\nstores: {}\n",
        &vec![],
        "default_profile",
        "work",
    )
    .unwrap();
    assert_eq!(prior, "<absent>");
    assert_eq!(
        candidate,
        "schema_version: 2\ndefault_profile: \"work\"\nstores: {}\n"
    );
}

#[test]
fn unsupported_fields_are_refused() {
    for field in [
        "schema_version",
        "stores.files.type",
        "stores.other.properties.path",
        "stores..properties.path",
    ] {
        assert_eq!(
            edit(DOCUMENT, &stores(), field, "x").unwrap_err(),
            format!("unsupported configuration field: {field}")
        );
    }
    assert_eq!(
        edit("a: b\n", &vec![], "default_profile", "x").unwrap_err(),
        "cannot prove presentation preservation without schema_version"
    );
    assert_eq!(
        edit("a: b\n", &stores(), "stores.files.properties.path", "x").unwrap_err(),
        "cannot prove presentation preservation for this store path"
    );
    assert_eq!(
        edit("default_profile: # none\n", &vec![], "default_profile", "x").unwrap_err(),
        "cannot prove presentation preservation for this scalar value"
    );
}

#[test]
fn prefixes_lead_from_the_root_to_the_directory() {
    assert_eq!(prefixes("/", Platform::Unix).unwrap(), ["/"]);
    assert_eq!(
        prefixes("/a//./b/", Platform::Unix).unwrap(),
        ["/", "/a", "/a/b"]
    );
    assert_eq!(
        prefixes(r"C:\a\b", Platform::Windows).unwrap(),
        [r"C:\", r"C:\a", r"C:\a\b"]
    );
    assert_eq!(
        prefixes(r"\\server\share\a", Platform::Windows).unwrap(),
        [r"\\server\share", r"\\server\share\", r"\\server\share\a"]
    );
    let error = prefixes("a/b", Platform::Unix).unwrap_err();
    assert_eq!(error.exit_code(), 2);
    assert_eq!(
        error.to_text(),
        "cannot edit configuration a/b: configuration parent is not absolute"
    );
}

fn missing() -> FileError {
    FileError {
        kind: FileErrorKind::NotFound,
        message: "no such entry".to_string(),
    }
}

/// The files of a machine, and the directories that lead to them.
struct Files {
    texts: BTreeMap<String, String>,
    directories: Vec<String>,
    taken: usize,
    drawn: usize,
    asked: Vec<&'static str>,
}

impl Files {
    fn new() -> Self {
        let mut texts = BTreeMap::new();
        texts.insert("/home/me/config.yaml".to_string(), DOCUMENT.to_string());
        Files {
            texts,
            directories: vec!["/".into(), "/home".into(), "/home/me".into()],
            taken: 0,
            drawn: 0,
            asked: vec![],
        }
    }

    fn answer(&mut self, request: SetRequest) -> SetReply {
        match request {
            SetRequest::Look { path } => {
                let directory = self.directories.contains(&path);
                let file = self.texts.contains_key(&path);
                SetReply::Looked(if directory || file {
                    Ok(EntryFacts {
                        directory,
                        file,
                        symlink: false,
                    })
                } else {
                    Err(missing())
                })
            }
            SetRequest::Canonicalize { path } => SetReply::Canonicalized(Ok(CanonicalPath {
                path,
                long_spelling: None,
            })),
            SetRequest::Read { path } => {
                self.asked.push("read");
                SetReply::Read(self.texts.get(&path).cloned().ok_or_else(missing))
            }
            SetRequest::Parse { document } => {
                SetReply::Parsed(if document.contains("schema_version") {
                    Ok(vec!["files".to_string()])
                } else {
                    Err("missing field `schema_version`".to_string())
                })
            }
            SetRequest::Number => {
                self.drawn += 1;
                SetReply::Number(self.drawn)
            }
            SetRequest::Create { path } => {
                self.asked.push("create");
                if self.taken > 0 {
                    self.taken -= 1;
                    return SetReply::Done(Err(FileError {
                        kind: FileErrorKind::AlreadyExists,
                        message: "taken".to_string(),
                    }));
                }
                self.texts.insert(path, String::new());
                SetReply::Done(Ok(()))
            }
            SetRequest::Write { path, contents } => {
                self.texts.insert(path, contents);
                SetReply::Done(Ok(()))
            }
            SetRequest::Flush { .. } => SetReply::Done(Ok(())),
            SetRequest::Replace {
                temporary,
                destination,
            } => {
                self.asked.push("replace");
                let text = self.texts.remove(&temporary).unwrap();
                self.texts.insert(destination, text);
                SetReply::Replaced(Ok(()))
            }
            SetRequest::FlushDirectory { .. } => {
                self.asked.push("flush directory");
                SetReply::Done(Ok(()))
            }
            SetRequest::Finished => unreachable!(),
        }
    }
}

fn destination() -> ResolvedPath {
    ResolvedPath::new("/home/me/config.yaml", Platform::Unix).unwrap()
}

fn prepared(files: &mut Files) -> Result<SetPreparation, ConfigSetError> {
    let mut session: PreparationSession =
        prepare(destination(), "default_profile", "work", Platform::Unix);
    loop {
        let request = session.request();
        if request == SetRequest::Finished {
            return session.finish().unwrap();
        }
        let reply = files.answer(request);
        session = session.answer(reply);
    }
}

/// Publishes, with a change of the answers.
fn published(
    preparation: SetPreparation,
    files: &mut Files,
    change: &mut dyn FnMut(&SetRequest, &mut Files) -> Option<SetReply>,
) -> Result<(), ConfigSetError> {
    let mut session = publish(preparation, 42, Platform::Unix);
    loop {
        let request = session.request();
        if request == SetRequest::Finished {
            return session.finish().unwrap();
        }
        let reply = match change(&request, files) {
            Some(reply) => reply,
            None => files.answer(request),
        };
        session = session.answer(reply);
    }
}

#[test]
fn a_prepared_edit_shows_the_field_before_and_after() {
    let mut files = Files::new();
    let preparation = prepared(&mut files).unwrap();
    assert_eq!(preparation.destination(), "/home/me/config.yaml");
    assert_eq!(preparation.field(), "default_profile");
    assert_eq!(preparation.prior(), "base");
    assert_eq!(preparation.result(), "work");
    assert!(preparation.candidate().contains("default_profile: \"work\""));
}

#[test]
fn an_edit_is_shown_asked_for_and_confirmed() {
    let preparation = prepared(&mut Files::new()).unwrap();
    assert_eq!(
        config_set_preview(&preparation),
        "configuration: /home/me/config.yaml\nprior default_profile: base\nresulting default_profile: work\n"
    );
    assert_eq!(config_set_confirmation(true, false), Confirmation::Granted);
    let Confirmation::Refused { message } = config_set_confirmation(false, false) else {
        panic!("nobody can answer");
    };
    assert_eq!(
        message,
        "confirmation unavailable: non-interactive config set requires --yes\n"
    );
    let refused = not_confirmed(&message);
    assert_eq!((refused.out.as_str(), refused.err, refused.code), ("", message, 2));
    assert_eq!(
        config_set_confirmation(false, true),
        Confirmation::Ask {
            prompt: "Set this configuration field? [y/N] ".to_string()
        }
    );
    assert!(config_set_answer("y\n").is_none());
    let cancelled = config_set_answer("\n").unwrap();
    assert_eq!(
        cancelled.err,
        "config set cancelled: confirmation not granted\n"
    );
    assert_eq!(cancelled.code, 2);
    let done = run_config_set("default_profile", Ok(()));
    assert_eq!(done.out, "set default_profile\n");
    assert_eq!(done.code, 0);
    let error = ConfigSetError::Input {
        path: "/c".to_string(),
        message: "wrong".to_string(),
    };
    let failed = config_set_error(&error);
    assert_eq!(failed.code, 2);
    assert_eq!(failed.err, format!("error: {}\n", error.to_text()));
    assert_eq!(run_config_set("default_profile", Err(error)).code, 2);
}

#[test]
fn a_publication_replaces_the_file_once_and_leaves_no_temporary() {
    let mut files = Files::new();
    let preparation = prepared(&mut files).unwrap();
    let candidate = preparation.candidate().to_string();
    files.asked.clear();
    published(preparation, &mut files, &mut |_, _| None).unwrap();
    assert_eq!(files.texts.len(), 1);
    assert_eq!(files.texts["/home/me/config.yaml"], candidate);
    assert_eq!(
        files.asked,
        ["read", "create", "read", "read", "replace", "read", "flush directory", "read"]
    );
}

#[test]
fn a_temporary_has_a_name_of_the_process_and_a_number() {
    let mut files = Files::new();
    let preparation = prepared(&mut files).unwrap();
    let mut names = vec![];
    published(preparation, &mut files, &mut |request, _| {
        if let SetRequest::Create { path } = request {
            names.push(path.clone());
        }
        None
    })
    .unwrap();
    assert_eq!(names, ["/home/me/.loadout-set-42-1"]);
}

#[test]
fn a_taken_name_is_given_up_for_another_one_but_not_for_ever() {
    let mut files = Files::new();
    let preparation = prepared(&mut files).unwrap();
    files.taken = 127;
    published(preparation, &mut files, &mut |_, _| None).unwrap();
    assert_eq!(files.drawn, 128);

    let mut files = Files::new();
    let preparation = prepared(&mut files).unwrap();
    files.taken = 128;
    let error = published(preparation, &mut files, &mut |_, _| None).unwrap_err();
    assert_eq!(
        error.to_text(),
        "cannot allocate configuration temporary /home/me: temporary name collision limit reached"
    );
    assert_eq!(files.texts["/home/me/config.yaml"], DOCUMENT);
}

#[test]
fn a_file_that_changed_meanwhile_is_never_replaced() {
    let mut files = Files::new();
    let preparation = prepared(&mut files).unwrap();
    let error = published(preparation, &mut files, &mut |request, files| {
        if let SetRequest::Flush { .. } = request {
            files
                .texts
                .insert("/home/me/config.yaml".into(), "schema_version: 2\n".into());
        }
        None
    })
    .unwrap_err();
    assert_eq!(
        error.to_text(),
        "cannot edit configuration /home/me/config.yaml: configuration changed before publication"
    );
    assert_eq!(error.exit_code(), 2);
    assert_eq!(files.texts["/home/me/config.yaml"], "schema_version: 2\n");
}

#[test]
fn a_file_that_changed_after_the_replacement_is_no_success() {
    let mut files = Files::new();
    let preparation = prepared(&mut files).unwrap();
    let error = published(preparation, &mut files, &mut |request, files| {
        if let SetRequest::FlushDirectory { .. } = request {
            files
                .texts
                .insert("/home/me/config.yaml".into(), "other".into());
        }
        None
    })
    .unwrap_err();
    assert_eq!(
        error.to_text(),
        "published configuration is invalid at /home/me/config.yaml: contents differ from the candidate document"
    );
    assert_eq!(error.exit_code(), 1);
}

#[test]
fn a_parent_that_leads_elsewhere_is_refused() {
    let mut files = Files::new();
    let preparation = prepared(&mut files).unwrap();
    let error = published(preparation, &mut files, &mut |request, _| match request {
        SetRequest::Canonicalize { path } if path == "/home/me" => {
            Some(SetReply::Canonicalized(Ok(CanonicalPath {
                path: "/home/you".into(),
                long_spelling: None,
            })))
        }
        _ => None,
    })
    .unwrap_err();
    assert_eq!(
        error.to_text(),
        "cannot edit configuration /home/me: parent is not associated with its declared path"
    );
    let mut files = Files::new();
    let preparation = prepared(&mut files).unwrap();
    let error = published(preparation, &mut files, &mut |request, _| match request {
        SetRequest::Look { path } if path == "/home" => Some(SetReply::Looked(Ok(EntryFacts {
            directory: true,
            file: false,
            symlink: true,
        }))),
        _ => None,
    })
    .unwrap_err();
    assert_eq!(
        error.to_text(),
        "cannot edit configuration /home: expected a non-symlink directory"
    );
}

#[test]
fn a_failed_replacement_is_reported() {
    let mut files = Files::new();
    let preparation = prepared(&mut files).unwrap();
    let error = published(preparation, &mut files, &mut |request, _| match request {
        SetRequest::Replace { .. } => Some(SetReply::Replaced(Err(ReplaceFailure::Unsupported))),
        _ => None,
    })
    .unwrap_err();
    assert_eq!(
        error.to_text(),
        "cannot edit configuration /home/me/config.yaml: atomic replacement is unsupported on this platform"
    );
    let mut files = Files::new();
    let preparation = prepared(&mut files).unwrap();
    let error = published(preparation, &mut files, &mut |request, _| match request {
        SetRequest::Replace { .. } => Some(SetReply::Replaced(Err(ReplaceFailure::Failed(
            missing(),
        )))),
        _ => None,
    })
    .unwrap_err();
    assert_eq!(
        error.to_text(),
        "cannot replace configuration /home/me/config.yaml: no such entry"
    );
    assert_eq!(error.exit_code(), 1);
}

#[test]
fn an_absent_or_strange_file_is_not_edited() {
    let mut files = Files::new();
    files.texts.clear();
    assert_eq!(
        prepared(&mut files).unwrap_err().to_text(),
        "cannot edit configuration /home/me/config.yaml: configuration file is absent"
    );
    files.directories.push("/home/me/config.yaml".into());
    assert_eq!(
        prepared(&mut files).unwrap_err().to_text(),
        "cannot edit configuration /home/me/config.yaml: expected a regular non-symlink file"
    );
    let mut files = Files::new();
    files
        .texts
        .insert("/home/me/config.yaml".into(), "nothing".into());
    assert_eq!(
        prepared(&mut files).unwrap_err().to_text(),
        "cannot edit configuration /home/me/config.yaml: missing field `schema_version`"
    );
}

#[test]
fn a_parent_on_one_drive_is_associated_whatever_the_case_of_its_letter() {
    let canonical = |path: &str| {
        Ok(CanonicalPath {
            path: path.to_string(),
            long_spelling: None,
        })
    };
    let associated = |path: &str, found: &str| {
        verify_parent_association(path, canonical(found), Platform::Windows).is_ok()
    };
    assert!(associated(r"c:\users", r"\\?\C:\users"));
    assert!(associated(r"C:\users", r"\\?\C:\users"));
    assert!(!associated(r"c:\users", r"\\?\C:\Users"));
    assert!(!associated(r"c:\users", r"\\?\D:\users"));
}
