use loadout::domain::file_copy::ContentFingerprint;
use loadout::domain::file_link::{LinkTarget, ResolvedFileLink};
use loadout::domain::ids::FullyQualifiedResourceId;
use loadout::domain::known::{
    KnownFileCopy, KnownFileCopyError, KnownFileLink, KnownFileLinkError, KnownResource,
    KnownState, KnownStateError,
};
use loadout::domain::paths::{Platform, ResolvedPath};

fn id(text: &str) -> FullyQualifiedResourceId {
    FullyQualifiedResourceId::new(text.to_string())
}

fn path(name: &str) -> ResolvedPath {
    ResolvedPath::new(&format!("/tmp/loadout-domain-known/{name}"), Platform::Unix).unwrap()
}

fn known(identity: &str, source: &str, target: &str) -> KnownFileLink {
    let source_path = path(source);
    KnownFileLink::new(
        id(identity),
        source_path.clone(),
        path(target),
        LinkTarget::new(source_path),
    )
    .unwrap()
}

fn copy(identity: &str, source: &str, target: &str) -> KnownFileCopy {
    KnownFileCopy::new(
        id(identity),
        path(source),
        path(target),
        ContentFingerprint::parse(format!("sha256:{}", "a".repeat(64))).unwrap(),
    )
    .unwrap()
}

fn links(list: Vec<KnownFileLink>) -> Vec<KnownResource> {
    list.into_iter().map(KnownResource::FileLink).collect()
}

#[test]
fn known_file_link_requires_the_recorded_link_target_to_equal_the_source() {
    let source = path("store/git/config");
    let other_source = path("store/git/other");

    assert_eq!(
        KnownFileLink::new(
            id("base/git"),
            source,
            path("home/.gitconfig"),
            LinkTarget::new(other_source),
        )
        .unwrap_err(),
        KnownFileLinkError::LinkTargetDiffersFromSource
    );
}

#[test]
fn known_file_link_rejects_a_record_that_would_target_its_source() {
    let source = path("store/git/config");

    assert_eq!(
        KnownFileLink::new(
            id("base/git"),
            source.clone(),
            source.clone(),
            LinkTarget::new(source),
        )
        .unwrap_err(),
        KnownFileLinkError::SourceEqualsTarget
    );
}

#[test]
fn known_state_rejects_duplicate_resource_ids_and_targets() {
    let duplicate_id = KnownState::new(links(vec![
        known("base/git", "store/git/config", "home/.gitconfig"),
        known("base/git", "store/git/other", "home/.gitconfig-other"),
    ]))
    .unwrap_err();
    assert!(matches!(
        duplicate_id,
        KnownStateError::DuplicateResourceId { .. }
    ));

    let duplicate_target = KnownState::new(links(vec![
        known("base/git", "store/git/config", "home/.gitconfig"),
        known("base/zsh", "store/zshrc", "home/.gitconfig"),
    ]))
    .unwrap_err();
    assert!(matches!(
        duplicate_target,
        KnownStateError::DuplicateTarget { .. }
    ));
}

#[test]
fn known_state_keeps_copy_effects_typed_and_enforces_cross_effect_target_uniqueness() {
    let link = known("base/link", "store/link", "home/.config");
    let state = KnownState::new(vec![
        KnownResource::FileLink(link),
        KnownResource::FileCopy(copy("base/copy", "store/copy", "home/.copyconfig")),
    ])
    .unwrap();
    assert_eq!(state.variants().len(), 2);
    assert!(matches!(
        state.get_variant(&id("base/copy")),
        Some(KnownResource::FileCopy(_))
    ));
    assert!(state.get(&id("base/copy")).is_none());
    assert_eq!(state.file_links().len(), 1);
    assert!(matches!(
        KnownState::new(vec![
            KnownResource::FileLink(known("base/link", "store/link", "home/.config")),
            KnownResource::FileCopy(copy("base/copy", "store/copy", "home/.config")),
        ]),
        Err(KnownStateError::DuplicateTarget { .. })
    ));
}

#[test]
fn known_state_upsert_retains_global_target_uniqueness_and_replaces_one_identity() {
    let existing = known("base/git", "store/git/config", "home/.gitconfig");
    let state = KnownState::new(links(vec![existing.clone()])).unwrap();

    let inserted = state
        .with_upserted(known("base/zsh", "store/zshrc", "home/.zshrc"))
        .unwrap();
    assert_eq!(inserted.resources().len(), 2);

    assert!(matches!(
        state.with_upserted(known("base/zsh", "store/zshrc", "home/.gitconfig")),
        Err(KnownStateError::DuplicateTarget { .. })
    ));
    let updated = state
        .with_upserted(known("base/git", "store/git/next", "home/.gitconfig"))
        .unwrap();
    assert_eq!(updated.resources().len(), 1);
    assert_eq!(
        updated.get(&id("base/git")).unwrap().source_path(),
        &path("store/git/next")
    );
}

#[test]
fn known_state_removal_requires_the_exact_verified_fact() {
    let existing = known("base/git", "store/git/config", "home/.gitconfig");
    let state = KnownState::new(links(vec![existing.clone()])).unwrap();

    let removed = state.with_removed(&existing).unwrap();
    assert!(removed.resources().is_empty());

    assert!(matches!(
        state.with_removed(&known("base/git", "store/git/other", "home/.gitconfig")),
        Err(KnownStateError::ResourceMismatch { .. })
    ));
    assert!(matches!(
        state.with_removed(&known("base/zsh", "store/zshrc", "home/.zshrc")),
        Err(KnownStateError::MissingResource { .. })
    ));
    assert!(matches!(
        state.with_missing_resource_removed(&id("base/zsh")),
        Err(KnownStateError::MissingResource { .. })
    ));
}

#[test]
fn identity_handoff_requires_an_absent_destination_identity() {
    let old = known("base/git", "store/git/config", "home/.gitconfig");
    let destination = known("base/git-renamed", "store/git/config", "home/.gitconfig");
    let state = KnownState::new(links(vec![old.clone(), destination.clone()])).unwrap_err();
    assert!(matches!(state, KnownStateError::DuplicateTarget { .. }));

    let destination = known("base/git-renamed", "store/git/other", "home/.other");
    let state = KnownState::new(links(vec![old.clone(), destination.clone()])).unwrap();
    assert_eq!(
        state.with_replaced_identity(&old, destination).unwrap_err(),
        KnownStateError::DestinationResourcePresent {
            resource_id: id("base/git-renamed")
        }
    );
}

#[test]
fn handoff_leaves_exactly_the_new_identity() {
    let old = known("base/git", "store/git/config", "home/.gitconfig");
    let other = known("base/zsh", "store/zshrc", "home/.zshrc");
    let state = KnownState::new(links(vec![old.clone(), other])).unwrap();
    let new = known("base/git-renamed", "store/git/config", "home/.gitconfig");
    let after = state.with_replaced_identity(&old, new).unwrap();
    let ids: Vec<&str> = after
        .resources()
        .iter()
        .map(|resource| resource.resource_id().as_str())
        .collect();
    assert_eq!(ids, ["base/git-renamed", "base/zsh"]);
    assert!(after.get(&id("base/git")).is_none());
}

#[test]
fn forgetting_what_was_recorded_gives_the_state_back() {
    let state = KnownState::new(links(vec![known("base/zsh", "store/zshrc", "home/.zshrc")]))
        .unwrap();
    let link = known("base/git", "store/git/config", "home/.gitconfig");
    let with_link = state.with_upserted(link.clone()).unwrap();
    assert_eq!(with_link.with_removed(&link).unwrap(), state);
    let copied = copy("base/copy", "store/copy", "home/.copyconfig");
    let with_copy = state.with_upserted_copy(copied.clone()).unwrap();
    assert_eq!(with_copy.with_removed_copy(&copied).unwrap(), state);
    assert_eq!(
        with_copy
            .with_missing_resource_removed(&id("base/copy"))
            .unwrap(),
        state
    );
    assert!(KnownState::empty().resources().is_empty());
}

#[test]
fn recorded_links_come_from_resolved_links() {
    let resolved =
        ResolvedFileLink::new(id("base/git"), path("store/a"), path("home/a")).unwrap();
    let link = KnownFileLink::from_resolved(&resolved);
    assert_eq!(link.source_path(), &path("store/a"));
    assert_eq!(link.link_target().as_path(), &path("store/a"));
    assert_eq!(link.target_path(), &path("home/a"));
}

#[test]
fn known_errors_say_what_is_wrong() {
    assert_eq!(
        KnownFileCopy::new(
            id("base/copy"),
            path("a"),
            path("a"),
            ContentFingerprint::parse(format!("sha256:{}", "0".repeat(64))).unwrap(),
        )
        .unwrap_err(),
        KnownFileCopyError::SourceEqualsTarget
    );
    assert_eq!(
        KnownFileCopyError::SourceEqualsTarget.to_text(),
        "a Known file-copy source and target must not be the same path"
    );
    assert_eq!(
        KnownFileLinkError::SourceEqualsTarget.to_text(),
        "a Known file-link source and target must not be the same path"
    );
    assert_eq!(
        KnownFileLinkError::LinkTargetDiffersFromSource.to_text(),
        "a Known file-link target must equal its recorded resolved source path"
    );
    assert_eq!(
        KnownState::new(links(vec![
            known("base/git", "store/git/config", "home/.gitconfig"),
            known("base/zsh", "store/zshrc", "home/.gitconfig"),
        ]))
        .unwrap_err()
        .to_text(),
        "Known target /tmp/loadout-domain-known/home/.gitconfig is recorded for both base/git and base/zsh"
    );
    assert_eq!(
        KnownState::empty()
            .with_missing_resource_removed(&id("base/zsh"))
            .unwrap_err()
            .to_text(),
        "Known state does not contain resource base/zsh"
    );
}

#[test]
fn facts_on_one_drive_are_compared_whatever_the_case_of_its_letter() {
    let windows = |text: &str| ResolvedPath::new(text, Platform::Windows).unwrap();
    let fact = |identity: &str, source: &str, target: &str| {
        KnownFileLink::new(
            id(identity),
            windows(source),
            windows(target),
            LinkTarget::new(windows(source)),
        )
    };
    assert_eq!(
        fact("base/git", r"c:\git", r"C:\git"),
        Err(KnownFileLinkError::SourceEqualsTarget)
    );
    assert!(KnownFileLink::new(
        id("base/git"),
        windows(r"c:\s\git"),
        windows(r"C:\h\git"),
        LinkTarget::new(windows(r"C:\s\git")),
    )
    .is_ok());
    let git = || fact("base/git", r"C:\s\git", r"C:\h\git").unwrap();
    let Err(KnownStateError::DuplicateTarget { target_path, .. }) = KnownState::new(links(vec![
        git(),
        fact("base/zsh", r"C:\s\zsh", r"c:\h\git").unwrap(),
    ])) else {
        panic!("both stand at one target");
    };
    assert_eq!(target_path.as_path(), r"c:\h\git");
    let state = KnownState::new(links(vec![git()])).unwrap();
    let Err(KnownStateError::DuplicateTarget {
        target_path,
        first_resource_id,
        duplicate_resource_id,
    }) = state.with_upserted(fact("base/bash", r"C:\s\bash", r"c:\h\git").unwrap())
    else {
        panic!("the target is taken");
    };
    assert_eq!(target_path.as_path(), r"C:\h\git");
    assert_eq!(first_resource_id.as_str(), "base/bash");
    assert_eq!(duplicate_resource_id.as_str(), "base/git");
    let forgotten = state
        .with_removed(&fact("base/git", r"c:\s\git", r"c:\h\git").unwrap())
        .unwrap();
    assert!(forgotten.resources().is_empty());
    assert!(matches!(
        state.with_removed(&fact("base/git", r"c:\s\Git", r"c:\h\git").unwrap()),
        Err(KnownStateError::ResourceMismatch { .. })
    ));
    let renamed = state
        .with_replaced_identity(
            &fact("base/git", r"c:\s\git", r"C:\h\git").unwrap(),
            fact("base/renamed", r"C:\s\git", r"c:\h\git").unwrap(),
        )
        .unwrap();
    assert_eq!(renamed.resources().len(), 1);
}
