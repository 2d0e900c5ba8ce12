use loadout::authoring::config_use::{
    absolute_prefixes, prepare, publication_error, publish, publish_replacement, publish_with,
    publish_without_replacement, validate_association, validate_published, verify_temporary,
    ConfigUseError, PublishFailure, UsePreparation, UseReply, UseRequest,
};
use loadout::authoring::files::{CanonicalPath, EntryFacts, FileError, FileErrorKind};
use loadout::declaration::runtime_config::RuntimeConfig;
use loadout::domain::paths::{Platform, ResolvedPath};
use std::collections::BTreeMap;

#[derive(Clone, Debug, PartialEq)]
enum Entry {
    Directory,
    File(String),
    Link(String),
}

fn failure(kind: FileErrorKind, message: &str) -> FileError {
    FileError {
        kind,
        message: message.to_string(),
    }
}

fn missing() -> FileError {
    failure(FileErrorKind::NotFound, "no such entry")
}

/// A file system with links that lead to directories.
struct Files {
    entries: BTreeMap<String, Entry>,
    platform: Platform,
    drawn: usize,
    taken: usize,
}

impl Files {
    fn new() -> Self {
        let mut entries = BTreeMap::new();
        for path in ["/", "/fixture"] {
            entries.insert(path.to_string(), Entry::Directory);
        }
        Files {
            entries,
            platform: Platform::Unix,
            drawn: 0,
            taken: 0,
        }
    }

    fn windows() -> Self {
        let mut entries = BTreeMap::new();
        for path in [r"C:\", r"C:\fixture"] {
            entries.insert(path.to_string(), Entry::Directory);
        }
        Files {
            entries,
            platform: Platform::Windows,
            drawn: 0,
            taken: 0,
        }
    }

    fn separator(&self) -> char {
        match self.platform {
            Platform::Unix => '/',
            Platform::Windows => '\\',
        }
    }

    fn is_text(&self, path: &str, text: &str) -> bool {
        self.entries.get(path) == Some(&Entry::File(text.to_string()))
    }

    /// The path with every link on the way followed.
    fn followed(&self, path: &str) -> String {
        let mut path = path.to_string();
        for (link, entry) in &self.entries {
            if let Entry::Link(target) = entry {
                if path == *link {
                    path = target.clone();
                } else if let Some(rest) = path.strip_prefix(&format!("{link}{}", self.separator()))
                {
                    path = format!("{target}{}{rest}", self.separator());
                }
            }
        }
        path
    }

    fn within(&self, path: &str) -> String {
        let cut = path.rfind(self.separator()).unwrap();
        format!("{}{}", self.followed(&path[..cut]), &path[cut..])
    }

    fn answer(&mut self, request: UseRequest) -> UseReply {
        match request {
            UseRequest::Look { path } => {
                let path = if path.len() <= 3 { path } else { self.within(&path) };
                UseReply::Looked(match self.entries.get(&path) {
                    None => Err(missing()),
                    Some(entry) => Ok(EntryFacts {
                        directory: *entry == Entry::Directory,
                        file: matches!(entry, Entry::File(_)),
                        symlink: matches!(entry, Entry::Link(_)),
                    }),
                })
            }
            UseRequest::Canonicalize { path } => {
                let path = self.followed(&path);
                UseReply::Canonicalized(Ok(match self.platform {
                    Platform::Unix => CanonicalPath {
                        path,
                        long_spelling: None,
                    },
                    Platform::Windows => CanonicalPath {
                        path: format!(r"\\?\{path}"),
                        long_spelling: None,
                    },
                }))
            }
            UseRequest::Read { path } => {
                UseReply::Read(match self.entries.get(&self.within(&path)) {
                    Some(Entry::File(text)) => Ok(text.clone()),
                    _ => Err(missing()),
                })
            }
            UseRequest::CreateDirectory { path } => {
                self.entries.insert(path, Entry::Directory);
                UseReply::Done(Ok(()))
            }
            UseRequest::Number => {
                self.drawn += 1;
                UseReply::Number(self.drawn)
            }
            UseRequest::Create { path } => {
                if self.taken > 0 {
                    self.taken -= 1;
                    return UseReply::Done(Err(failure(FileErrorKind::AlreadyExists, "taken")));
                }
                self.entries.insert(path, Entry::File(String::new()));
                UseReply::Done(Ok(()))
            }
            UseRequest::Write { path, contents } => {
                self.entries.insert(path, Entry::File(contents));
                UseReply::Done(Ok(()))
            }
            UseRequest::Flush { .. } => UseReply::Done(Ok(())),
            UseRequest::PublishNew {
                temporary,
                destination,
            } => {
                if self.entries.contains_key(&destination) {
                    return UseReply::Published(Err(PublishFailure::Failed(failure(
                        FileErrorKind::AlreadyExists,
                        "exists",
                    ))));
                }
                let entry = self.entries.remove(&temporary).unwrap();
                self.entries.insert(destination, entry);
                UseReply::Published(Ok(()))
            }
            UseRequest::PublishOver {
                temporary,
                destination,
            } => {
                let entry = self.entries.remove(&temporary).unwrap();
                self.entries.insert(destination, entry);
                UseReply::Published(Ok(()))
            }
            UseRequest::FlushDirectory { .. } => UseReply::Done(Ok(())),
            UseRequest::Finished => unreachable!(),
        }
    }
}

fn path(text: &str, platform: Platform) -> ResolvedPath {
    ResolvedPath::new(text, platform).unwrap()
}

fn selected(platform: Platform) -> ResolvedPath {
    match platform {
        Platform::Unix => path("/fixture/portable/config.yaml", platform),
        Platform::Windows => path(r"C:\fixture\portable\config.yaml", platform),
    }
}

fn prepared(destination: &str, files: &mut Files) -> Result<UsePreparation, ConfigUseError> {
    let platform = files.platform;
    let mut session = prepare(path(destination, platform), &selected(platform), platform);
    loop {
        let request = session.request();
        if request == UseRequest::Finished {
            return session.finish().unwrap();
        }
        let reply = files.answer(request);
        session = session.answer(reply);
    }
}

/// Publishes, with a change of the answers.
fn published(
    preparation: UsePreparation,
    files: &mut Files,
    change: &mut dyn FnMut(&UseRequest, &mut Files) -> Option<UseReply>,
) -> Result<(), ConfigUseError> {
    let mut session = publish(preparation, 7, files.platform);
    loop {
        let request = session.request();
        if request == UseRequest::Finished {
            return session.finish().unwrap();
        }
        let reply = match change(&request, files) {
            Some(reply) => reply,
            None => files.answer(request),
        };
        session = publish_with(session, reply);
    }
}

#[test]
fn no_replace_collision_preserves_the_external_runtime_file() {
    let mut files = Files::new();
    let destination = "/fixture/runtime/loadout.yaml";
    let preparation = prepared(destination, &mut files).unwrap();
    let result = published(preparation, &mut files, &mut |request, files| {
        if let UseRequest::PublishNew { destination, .. } = request {
            files.entries.insert(
                destination.clone(),
                Entry::File("external runtime file".into()),
            );
        }
        assert!(!matches!(request, UseRequest::PublishOver { .. }));
        None
    });

    assert!(matches!(result, Err(ConfigUseError::Collision { .. })));
    assert!(files.is_text(destination, "external runtime file"));
}

#[test]
fn publication_failure_retains_created_parents_and_does_not_create_the_final_file() {
    let mut files = Files::new();
    let destination = "/fixture/runtime/nested/loadout.yaml";
    let preparation = prepared(destination, &mut files).unwrap();
    let result = published(preparation, &mut files, &mut |request, _| match request {
        UseRequest::PublishNew { .. } => Some(UseReply::Published(Err(PublishFailure::Failed(
            failure(FileErrorKind::Other, "injected failure"),
        )))),
        _ => None,
    });

    assert!(matches!(result, Err(ConfigUseError::Io { .. })));
    assert_eq!(files.entries["/fixture/runtime"], Entry::Directory);
    assert_eq!(files.entries["/fixture/runtime/nested"], Entry::Directory);
    assert!(!files.entries.contains_key(destination));
}

#[test]
fn substituted_temporary_is_rejected_before_publication() {
    let mut files = Files::new();
    let preparation = prepared("/fixture/runtime/loadout.yaml", &mut files).unwrap();
    let mut looks = 0;
    let mut temporary = String::new();
    let result = published(preparation, &mut files, &mut |request, files| {
        if let UseRequest::Create { path } = request {
            temporary = path.clone();
        }
        if let UseRequest::Look { path } = request {
            if *path == temporary {
                looks += 1;
                if looks == 2 {
                    files
                        .entries
                        .insert(path.clone(), Entry::File("schema_version: 1\n".into()));
                }
            }
        }
        assert!(!matches!(request, UseRequest::PublishNew { .. }));
        None
    });

    assert!(matches!(result, Err(ConfigUseError::Io { .. })));
    assert_eq!(
        result.unwrap_err().to_text(),
        "cannot recheck runtime configuration temporary /fixture/runtime/.loadout-use-7-1: config_path differs from the selected portable configuration"
    );
    assert!(files.is_text(&temporary, "schema_version: 1\n"));
}

#[test]
fn post_publication_substitution_is_reported_and_the_observed_file_is_preserved() {
    let mut files = Files::new();
    let destination = "/fixture/runtime/loadout.yaml";
    let preparation = prepared(destination, &mut files).unwrap();
    let mut moved = false;
    let result = published(preparation, &mut files, &mut |request, files| {
        if moved {
            files
                .entries
                .insert(destination.into(), Entry::File("schema_version: 1\n".into()));
            moved = false;
        }
        if matches!(request, UseRequest::PublishNew { .. }) {
            moved = true;
        }
        None
    });

    assert!(matches!(
        result,
        Err(ConfigUseError::InvalidPublished { .. })
    ));
    assert!(files.is_text(destination, "schema_version: 1\n"));
}

#[test]
fn post_publication_parent_substitution_is_not_reported_as_success() {
    let mut files = Files::new();
    let destination = "/fixture/runtime/loadout.yaml";
    let preparation = prepared(destination, &mut files).unwrap();
    let mut moved = false;
    let result = published(preparation, &mut files, &mut |request, files| {
        if moved {
            moved = false;
            let file = files.entries.remove(destination).unwrap();
            files
                .entries
                .insert("/fixture/moved-runtime".into(), Entry::Directory);
            files
                .entries
                .insert("/fixture/moved-runtime/loadout.yaml".into(), file);
            files.entries.insert(
                "/fixture/runtime".into(),
                Entry::Link("/fixture/moved-runtime".into()),
            );
        }
        if matches!(request, UseRequest::PublishNew { .. }) {
            moved = true;
        }
        None
    });

    assert!(matches!(
        result,
        Err(ConfigUseError::InvalidPublished { .. })
    ));
    assert!(matches!(
        files.entries["/fixture/runtime"],
        Entry::Link(_)
    ));
    assert!(files
        .entries
        .contains_key("/fixture/moved-runtime/loadout.yaml"));
}

#[test]
fn windows_publication_creates_and_replaces_a_runtime_file() {
    let mut files = Files::windows();
    let destination = r"C:\fixture\runtime\loadout.yaml";
    let first = prepared(destination, &mut files).unwrap();
    assert_eq!(first.prior(), None);
    published(first, &mut files, &mut |_, _| None).unwrap();
    let second = prepared(destination, &mut files).unwrap();
    assert_eq!(second.prior(), Some(r"C:\fixture\portable\config.yaml"));
    assert_eq!(second.destination(), destination);

    published(second, &mut files, &mut |_, _| None).unwrap();
    let text = RuntimeConfig::selected_config(r"C:\fixture\portable\config.yaml").unwrap();
    assert!(files.is_text(destination, &text));
    validate_published(destination, r"C:\fixture\portable\config.yaml", Ok(text)).unwrap();
}

#[test]
fn a_published_selection_is_the_whole_document() {
    let mut files = Files::new();
    let destination = "/fixture/a/b/loadout.yaml";
    let preparation = prepared(destination, &mut files).unwrap();
    assert_eq!(preparation.selected_path(), "/fixture/portable/config.yaml");
    published(preparation, &mut files, &mut |_, _| None).unwrap();
    assert!(files.is_text(
        destination,
        "schema_version: 1\nconfig_path: /fixture/portable/config.yaml\n"
    ));
    let names: Vec<&String> = files.entries.keys().collect();
    assert_eq!(
        names,
        ["/", "/fixture", "/fixture/a", "/fixture/a/b", destination]
    );
}

#[test]
fn an_existing_file_is_replaced_and_an_absent_one_is_not() {
    let mut files = Files::new();
    let destination = "/fixture/loadout.yaml";
    files
        .entries
        .insert(destination.into(), Entry::File("schema_version: 1\n".into()));
    let preparation = prepared(destination, &mut files).unwrap();
    assert_eq!(preparation.prior(), None);
    let mut over = 0;
    published(preparation, &mut files, &mut |request, _| {
        if matches!(request, UseRequest::PublishOver { .. }) {
            over += 1;
        }
        assert!(!matches!(request, UseRequest::PublishNew { .. }));
        assert!(!matches!(request, UseRequest::CreateDirectory { .. }));
        None
    })
    .unwrap();
    assert_eq!(over, 1);
}

#[test]
fn a_runtime_file_that_changed_meanwhile_is_refused() {
    let mut files = Files::new();
    let destination = "/fixture/loadout.yaml";
    files
        .entries
        .insert(destination.into(), Entry::File("schema_version: 1\n".into()));
    let preparation = prepared(destination, &mut files).unwrap();
    files.entries.remove(destination);
    let error = published(preparation, &mut files, &mut |_, _| None).unwrap_err();
    assert_eq!(
        error.to_text(),
        "invalid runtime configuration path /fixture/loadout.yaml: runtime configuration changed before publication"
    );
    assert_eq!(error.exit_code(), 2);
}

#[test]
fn taken_temporary_names_are_given_up_but_not_for_ever() {
    let mut files = Files::new();
    let preparation = prepared("/fixture/loadout.yaml", &mut files).unwrap();
    files.taken = 127;
    published(preparation, &mut files, &mut |_, _| None).unwrap();
    assert_eq!(files.drawn, 128);

    let mut files = Files::new();
    let preparation = prepared("/fixture/loadout.yaml", &mut files).unwrap();
    files.taken = 128;
    assert_eq!(
        published(preparation, &mut files, &mut |_, _| None)
            .unwrap_err()
            .to_text(),
        "cannot allocate a unique runtime configuration temporary below /fixture: temporary name collision limit reached"
    );
}

#[test]
fn a_vanished_parent_makes_the_published_file_invalid() {
    let mut files = Files::new();
    let preparation = prepared("/fixture/runtime/loadout.yaml", &mut files).unwrap();
    let mut moved = false;
    let error = published(preparation, &mut files, &mut |request, files| {
        if moved {
            files.entries.remove("/fixture/runtime");
        }
        if matches!(request, UseRequest::PublishNew { .. }) {
            moved = true;
        }
        None
    })
    .unwrap_err();
    assert_eq!(
        error.to_text(),
        "published runtime configuration is invalid at /fixture/runtime: runtime configuration parent disappeared during publication"
    );
    assert_eq!(error.exit_code(), 1);
}

#[test]
fn a_preparation_refuses_what_it_cannot_read() {
    let mut files = Files::new();
    let destination = "/fixture/loadout.yaml";
    files
        .entries
        .insert(destination.into(), Entry::File("schema_version: 2\n".into()));
    assert_eq!(
        prepared(destination, &mut files).unwrap_err().to_text(),
        "invalid runtime configuration path /fixture/loadout.yaml: unsupported schema_version"
    );
    files
        .entries
        .insert(destination.into(), Entry::Link("/fixture/other".into()));
    assert_eq!(
        prepared(destination, &mut files).unwrap_err().to_text(),
        "invalid runtime configuration path /fixture/loadout.yaml: expected an absent or regular non-symlink file"
    );
    files
        .entries
        .insert("/fixture".into(), Entry::Link("/other".into()));
    assert_eq!(
        prepared(destination, &mut files).unwrap_err().to_text(),
        "invalid runtime configuration path /fixture: expected a non-symlink directory"
    );
    assert_eq!(
        prepared("/", &mut files).unwrap_err().to_text(),
        "invalid runtime configuration path /: runtime configuration has no parent directory"
    );
    assert_eq!(
        absolute_prefixes("a", Platform::Unix).unwrap_err().to_text(),
        "invalid runtime configuration path a: runtime configuration parent is not absolute"
    );
}

#[test]
fn publication_errors_are_told_apart() {
    let taken = || failure(FileErrorKind::AlreadyExists, "exists");
    assert_eq!(
        publication_error("/a", taken()).to_text(),
        "runtime configuration appeared during publication: /a"
    );
    assert_eq!(
        publication_error("/a", missing()).to_text(),
        "cannot publish runtime configuration /a: no such entry"
    );
    assert_eq!(
        publish_without_replacement("/a", Err(PublishFailure::Unsupported)).unwrap_err(),
        ConfigUseError::UnsupportedPlatform
    );
    assert_eq!(
        publish_replacement(
            "/a",
            Err(PublishFailure::Failed(taken())),
            Platform::Unix
        )
        .unwrap_err()
        .to_text(),
        "cannot replace runtime configuration /a: exists"
    );
    assert!(matches!(
        publish_replacement(
            r"C:\a",
            Err(PublishFailure::Failed(taken())),
            Platform::Windows
        ),
        Err(ConfigUseError::Collision { .. })
    ));
    let kept = verify_temporary(ConfigUseError::UnsupportedPlatform);
    assert_eq!(kept, ConfigUseError::UnsupportedPlatform);
    assert_eq!(
        kept.to_text(),
        "config use requires an atomic runtime-configuration publication primitive on this platform"
    );
}

#[test]
fn a_directory_on_one_drive_is_associated_whatever_the_case_of_its_letter() {
    let associated = |path: &str, found: &str| {
        validate_association(
            path,
            Ok(CanonicalPath {
                path: found.to_string(),
                long_spelling: None,
            }),
            Platform::Windows,
        )
        .is_ok()
    };
    assert!(associated(r"c:\runtime", r"\\?\C:\runtime"));
    assert!(!associated(r"c:\runtime", r"\\?\C:\Runtime"));
    assert!(!associated(r"c:\runtime", r"\\?\D:\runtime"));
}
