use loadout::authoring::files::{path_in, EntryFacts, FileError, FileErrorKind};
use loadout::authoring::init::{
    initialize, initialize_with, publication_error, publish_without_replacement, InitError,
    InitReply, InitReport, InitRequest, BASE_YAML, CONFIG_YAML,
};
use loadout::domain::paths::Platform;
use std::collections::BTreeMap;

#[derive(Clone, Debug, PartialEq)]
enum Entry {
    Directory,
    File(String),
    Link,
}

fn failure(kind: FileErrorKind, message: &str) -> FileError {
    FileError {
        kind,
        message: message.to_string(),
    }
}

struct Files {
    entries: BTreeMap<String, Entry>,
    drawn: usize,
    changes: usize,
    flushed: usize,
}

impl Files {
    fn new() -> Self {
        Files {
            entries: BTreeMap::new(),
            drawn: 0,
            changes: 0,
            flushed: 0,
        }
    }

    fn make(&mut self, path: String, entry: Entry) -> InitReply {
        if self.entries.contains_key(&path) {
            return InitReply::Done(Err(failure(FileErrorKind::AlreadyExists, "exists")));
        }
        self.changes += 1;
        self.entries.insert(path, entry);
        InitReply::Done(Ok(()))
    }

    fn has_staging(&self) -> bool {
        self.entries
            .keys()
            .any(|path| path.starts_with("/work/.loadout-init-"))
    }

    fn rename(&mut self, from: &str, to: &str) {
        let moved: Vec<String> = self
            .entries
            .keys()
            .filter(|path| path.starts_with(from))
            .cloned()
            .collect();
        for path in moved {
            let entry = self.entries.remove(&path).unwrap();
            self.entries.insert(path.replacen(from, to, 1), entry);
        }
    }

    fn answer(&mut self, request: InitRequest) -> InitReply {
        match request {
            InitRequest::Look { path } => InitReply::Looked(match self.entries.get(&path) {
                None => Err(failure(FileErrorKind::NotFound, "no such entry")),
                Some(entry) => Ok(EntryFacts {
                    directory: *entry == Entry::Directory,
                    file: matches!(entry, Entry::File(_)),
                    symlink: *entry == Entry::Link,
                }),
            }),
            InitRequest::Number => {
                self.drawn += 1;
                InitReply::Number(self.drawn)
            }
            InitRequest::CreateDirectory { path } => self.make(path, Entry::Directory),
            InitRequest::Create { path } => self.make(path, Entry::File(String::new())),
            InitRequest::Write { path, contents } => {
                self.entries.insert(path, Entry::File(contents));
                InitReply::Done(Ok(()))
            }
            InitRequest::Flush { .. } => InitReply::Done(Ok(())),
            InitRequest::FlushDirectory { .. } => {
                self.flushed += 1;
                InitReply::Done(Ok(()))
            }
            InitRequest::Read { path } => InitReply::Read(match self.entries.get(&path) {
                Some(Entry::File(text)) => Ok(text.clone()),
                _ => Err(failure(FileErrorKind::NotFound, "no such entry")),
            }),
            InitRequest::ParseConfiguration { document } => {
                assert_eq!(document, CONFIG_YAML);
                InitReply::Parsed(Ok(()))
            }
            InitRequest::ParseProfile { document } => {
                assert_eq!(document, BASE_YAML);
                InitReply::Parsed(Ok(()))
            }
            InitRequest::Publish { staging, root } => {
                if self.entries.contains_key(&root) {
                    return InitReply::Done(Err(failure(FileErrorKind::AlreadyExists, "exists")));
                }
                self.rename(&staging, &root);
                InitReply::Done(Ok(()))
            }
            InitRequest::Finished => unreachable!(),
        }
    }
}

fn run_on(
    files: &mut Files,
    dry_run: bool,
    platform: Platform,
    supported: bool,
    change: &mut dyn FnMut(&InitRequest, &mut Files) -> Option<InitReply>,
) -> Result<InitReport, InitError> {
    let current = match platform {
        Platform::Unix => "/work",
        Platform::Windows => r"C:\work",
    };
    let mut session = initialize(current, dry_run, 9, platform, supported);
    loop {
        let request = session.request();
        if request == InitRequest::Finished {
            return session.finish().unwrap();
        }
        let reply = match change(&request, files) {
            Some(reply) => reply,
            None => files.answer(request),
        };
        session = initialize_with(session, reply);
    }
}

fn run(files: &mut Files, dry_run: bool) -> Result<InitReport, InitError> {
    run_on(files, dry_run, Platform::Unix, true, &mut |_, _| None)
}

#[test]
fn creates_a_valid_complete_bundle() {
    let mut files = Files::new();
    let report = run(&mut files, false).unwrap();

    assert_eq!(report.root(), "/work/.loadout");
    assert!(!report.dry_run());
    assert_eq!(
        files.entries["/work/.loadout/config.yaml"],
        Entry::File(CONFIG_YAML.to_string())
    );
    assert_eq!(
        files.entries["/work/.loadout/profiles/base.yaml"],
        Entry::File(BASE_YAML.to_string())
    );
    assert_eq!(files.entries.len(), 4);
    assert_eq!(files.flushed, 3);
}

#[test]
fn dry_run_creates_nothing() {
    let mut files = Files::new();
    let report = run(&mut files, true).unwrap();

    assert!(report.dry_run());
    assert_eq!(report.root(), "/work/.loadout");
    assert!(files.entries.is_empty());
}

#[test]
fn existing_control_entry_is_never_replaced() {
    let mut files = Files::new();
    let existing = Entry::File("user data".to_string());
    files
        .entries
        .insert("/work/.loadout".to_string(), existing.clone());

    assert!(matches!(
        run(&mut files, false),
        Err(InitError::AlreadyExists { path }) if path == "/work/.loadout"
    ));
    assert_eq!(files.entries["/work/.loadout"], existing);
    assert_eq!(files.changes, 0);
}

#[test]
fn existing_control_directory_is_never_replaced() {
    let mut files = Files::new();
    files
        .entries
        .insert("/work/.loadout".to_string(), Entry::Directory);
    files.entries.insert(
        "/work/.loadout/user-owned".to_string(),
        Entry::File("preserve me".to_string()),
    );

    assert!(matches!(
        run(&mut files, false),
        Err(InitError::AlreadyExists { path }) if path == "/work/.loadout"
    ));
    assert_eq!(
        files.entries["/work/.loadout/user-owned"],
        Entry::File("preserve me".to_string())
    );
}

#[test]
fn existing_control_symlink_is_never_followed_or_replaced() {
    let mut files = Files::new();
    files
        .entries
        .insert("/work/.loadout".to_string(), Entry::Link);

    assert!(matches!(
        run(&mut files, false),
        Err(InitError::AlreadyExists { path }) if path == "/work/.loadout"
    ));
    assert_eq!(files.entries["/work/.loadout"], Entry::Link);
    assert_eq!(files.changes, 0);
}

#[test]
fn publication_failure_never_exposes_a_partial_control_directory() {
    let mut files = Files::new();
    let result = run_on(
        &mut files,
        false,
        Platform::Unix,
        true,
        &mut |request, _| match request {
            InitRequest::Publish { .. } => Some(InitReply::Done(Err(failure(
                FileErrorKind::Other,
                "injected publication failure",
            )))),
            _ => None,
        },
    );

    assert!(matches!(result, Err(InitError::Io { .. })));
    assert_eq!(
        result.unwrap_err().to_text(),
        "cannot publish control directory /work/.loadout: injected publication failure"
    );
    assert!(!files.entries.contains_key("/work/.loadout"));
    assert!(files.has_staging());
}

#[test]
fn external_entry_at_publication_is_preserved() {
    let mut files = Files::new();
    let result = run_on(
        &mut files,
        false,
        Platform::Unix,
        true,
        &mut |request, files| {
            if let InitRequest::Publish { root, .. } = request {
                files
                    .entries
                    .insert(root.clone(), Entry::File("external entry".to_string()));
            }
            None
        },
    );

    assert!(matches!(result, Err(InitError::AlreadyExists { .. })));
    assert_eq!(
        files.entries["/work/.loadout"],
        Entry::File("external entry".to_string())
    );
}

#[test]
fn post_publication_substitution_is_not_reported_as_success() {
    let mut files = Files::new();
    let result = run_on(
        &mut files,
        false,
        Platform::Unix,
        true,
        &mut |request, files| {
            if let InitRequest::Publish { staging, root } = request {
                files.rename(staging, root);
                files.entries.insert(
                    format!("{root}/config.yaml"),
                    Entry::File("schema_version: 1\n".to_string()),
                );
                return Some(InitReply::Done(Ok(())));
            }
            None
        },
    );

    assert!(matches!(
        result,
        Err(InitError::InvalidGeneratedBundle { .. })
    ));
    assert_eq!(
        result.unwrap_err().to_text(),
        "generated bundle is invalid at /work/.loadout/config.yaml: contents differ from the initial environment configuration"
    );
    assert_eq!(files.entries["/work/.loadout"], Entry::Directory);
}

#[test]
fn no_replace_publication_classifies_a_race_collision_as_already_exists() {
    assert!(matches!(
        publish_without_replacement(
            "/work/.loadout",
            Err(failure(FileErrorKind::AlreadyExists, "exists"))
        ),
        Err(InitError::AlreadyExists { path }) if path == "/work/.loadout"
    ));
    let error = publication_error("/a", failure(FileErrorKind::AlreadyExists, "exists"));
    assert_eq!(error.exit_code(), 2);
    assert_eq!(
        error.to_text(),
        "refusing to initialize because control directory already exists: /a"
    );
}

#[test]
fn staging_write_flush_and_validation_failures_never_publish() {
    for stage in 0..7 {
        let mut files = Files::new();
        let mut flushes = 0;
        let mut writes = 0;
        let result = run_on(
            &mut files,
            false,
            Platform::Unix,
            true,
            &mut |request, _| {
                let fails = match request {
                    InitRequest::Write { .. } => {
                        writes += 1;
                        stage == writes - 1
                    }
                    InitRequest::Flush { path } => {
                        stage == if path.ends_with("config.yaml") { 2 } else { 3 }
                    }
                    InitRequest::FlushDirectory { .. } => {
                        flushes += 1;
                        stage == 3 + flushes
                    }
                    InitRequest::Read { .. } => {
                        if stage == 6 {
                            return Some(InitReply::Read(Err(failure(
                                FileErrorKind::Other,
                                "injected staging failure",
                            ))));
                        }
                        false
                    }
                    _ => false,
                };
                if fails {
                    Some(InitReply::Done(Err(failure(
                        FileErrorKind::Other,
                        "injected staging failure",
                    ))))
                } else {
                    None
                }
            },
        );

        assert!(matches!(result, Err(InitError::Io { .. })), "{stage}");
        assert!(!files.entries.contains_key("/work/.loadout"));
        assert!(files.has_staging());
    }
}

#[test]
fn existing_windows_symlink_and_junction_are_never_replaced() {
    for entry in [Entry::Link, Entry::Directory] {
        let mut files = Files::new();
        files
            .entries
            .insert(r"C:\work\.loadout".to_string(), entry.clone());
        assert!(matches!(
            run_on(&mut files, false, Platform::Windows, true, &mut |_, _| None),
            Err(InitError::AlreadyExists { path }) if path == r"C:\work\.loadout"
        ));
        assert_eq!(files.entries[r"C:\work\.loadout"], entry);
        assert_eq!(files.changes, 0);
    }
}

#[test]
fn windows_no_replace_publication_preserves_an_external_entry() {
    let mut files = Files::new();
    let mut looks = 0;
    let result = run_on(
        &mut files,
        false,
        Platform::Windows,
        true,
        &mut |request, files| {
            // The second file is read back under the spelling with a slash.
            if let InitRequest::Read { path } = request {
                return Some(files.answer(InitRequest::Read {
                    path: path.replace('/', r"\"),
                }));
            }
            if let InitRequest::Look { path } = request {
                looks += 1;
                if looks == 2 {
                    files
                        .entries
                        .insert(path.clone(), Entry::File("external entry".to_string()));
                }
            }
            assert!(!matches!(request, InitRequest::FlushDirectory { .. }));
            None
        },
    );
    assert!(matches!(
        result,
        Err(InitError::AlreadyExists { path }) if path == r"C:\work\.loadout"
    ));
    assert_eq!(
        files.entries[r"C:\work\.loadout"],
        Entry::File("external entry".to_string())
    );
}

#[test]
fn what_the_platform_cannot_publish_is_staged_and_refused() {
    let mut files = Files::new();
    let error = run_on(&mut files, false, Platform::Unix, false, &mut |_, _| None).unwrap_err();
    assert_eq!(error, InitError::UnsupportedPlatform);
    assert_eq!(error.exit_code(), 2);
    assert_eq!(
        error.to_text(),
        "init requires a platform primitive that publishes a directory without replacing an existing entry"
    );
    assert!(!files.entries.contains_key("/work/.loadout"));
    assert!(files.has_staging());
}

#[test]
fn taken_staging_names_are_given_up_but_not_for_ever() {
    let mut files = Files::new();
    for number in 1..=127 {
        files
            .entries
            .insert(format!("/work/.loadout-init-9-{number}"), Entry::Directory);
    }
    run(&mut files, false).unwrap();
    assert_eq!(files.drawn, 128);

    let mut files = Files::new();
    for number in 1..=128 {
        files
            .entries
            .insert(format!("/work/.loadout-init-9-{number}"), Entry::Directory);
    }
    assert_eq!(
        run(&mut files, false).unwrap_err().to_text(),
        "cannot allocate a unique staging directory below /work: staging name collision limit reached"
    );
}

#[test]
fn a_bundle_is_joined_to_its_directory_as_the_platform_writes_paths() {
    for (current, platform, root, profile) in [
        ("/", Platform::Unix, "/.loadout", "/.loadout/profiles/base.yaml"),
        ("work", Platform::Unix, "work/.loadout", "work/.loadout/profiles/base.yaml"),
        ("", Platform::Unix, ".loadout", ".loadout/profiles/base.yaml"),
        (
            "C:\\",
            Platform::Unix,
            "C:\\/.loadout",
            "C:\\/.loadout/profiles/base.yaml",
        ),
        ("D:/", Platform::Windows, "D:/.loadout", r"D:/.loadout\profiles/base.yaml"),
        ("D:", Platform::Windows, "D:.loadout", r"D:.loadout\profiles/base.yaml"),
        (r"D:\", Platform::Windows, r"D:\.loadout", r"D:\.loadout\profiles/base.yaml"),
        ("D:/w/", Platform::Windows, "D:/w/.loadout", r"D:/w/.loadout\profiles/base.yaml"),
        ("w:", Platform::Unix, "w:/.loadout", "w:/.loadout/profiles/base.yaml"),
        (
            r"\\server\share",
            Platform::Windows,
            r"\\server\share\.loadout",
            r"\\server\share\.loadout\profiles/base.yaml",
        ),
        (
            r"\\?\C:\w\\x\",
            Platform::Windows,
            r"\\?\C:\w\x\.loadout",
            r"\\?\C:\w\x\.loadout\profiles\base.yaml",
        ),
        (
            r"\\?\C:",
            Platform::Windows,
            r"\\?\C:\.loadout",
            r"\\?\C:\.loadout\profiles\base.yaml",
        ),
        (
            r"\\?\UNC\server\share\w",
            Platform::Windows,
            r"\\?\UNC\server\share\w\.loadout",
            r"\\?\UNC\server\share\w\.loadout\profiles\base.yaml",
        ),
    ] {
        assert_eq!(path_in(current, ".loadout", platform), root, "{current:?}");
        assert_eq!(
            path_in(root, "profiles/base.yaml", platform),
            profile,
            "{current:?}"
        );
        let session = initialize(current, true, 9, platform, true);
        assert_eq!(
            session.request(),
            InitRequest::Look {
                path: root.to_string()
            }
        );
    }
}
