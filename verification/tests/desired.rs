use loadout::domain::desired::{ResolvedDesired, ResolvedDesiredError, ResolvedResource};
use loadout::domain::file_copy::{
    ContentFingerprint, ContentFingerprintError, ResolvedFileCopy, ResolvedFileCopyError,
};
use loadout::domain::file_link::{ResolvedFileLink, ResolvedFileLinkError};
use loadout::domain::ids::{FullyQualifiedResourceId, ProfileId};
use loadout::domain::paths::{Platform, ResolvedPath};

fn id(text: &str) -> FullyQualifiedResourceId {
    FullyQualifiedResourceId::new(text.to_string())
}

fn path(text: &str) -> ResolvedPath {
    ResolvedPath::new(text, Platform::Unix).unwrap()
}

fn resource(identity: &str, source: &str, target: &str) -> ResolvedResource {
    ResolvedResource::FileLink(
        ResolvedFileLink::new(
            id(identity),
            path(&format!("/tmp/loadout-domain-desired/store/{source}")),
            path(&format!("/tmp/loadout-domain-desired/home/{target}")),
        )
        .unwrap(),
    )
}

fn root_profile() -> ProfileId {
    ProfileId::new("workstation".to_string())
}

#[test]
fn desired_resources_are_sorted_by_fully_qualified_resource_id() {
    let desired = ResolvedDesired::new(
        root_profile(),
        vec![
            resource("zeta/zsh", "zshrc", ".zshrc"),
            resource("base/git", "git/config", ".gitconfig"),
        ],
    )
    .unwrap();

    assert_eq!(desired.root_profile().as_str(), "workstation");
    assert_eq!(
        desired
            .resources()
            .iter()
            .map(|resource| resource.resource_id().as_str())
            .collect::<Vec<_>>(),
        ["base/git", "zeta/zsh"]
    );
    assert!(desired.get(&id("base/git")).is_some());
    assert!(desired.get(&id("base/zsh")).is_none());
}

#[test]
fn desired_rejects_duplicate_resource_id_and_normalized_target() {
    let duplicate_id = ResolvedDesired::new(
        root_profile(),
        vec![
            resource("base/git", "git/config", ".gitconfig"),
            resource("base/git", "git/other", ".gitconfig-other"),
        ],
    )
    .unwrap_err();
    assert!(matches!(
        duplicate_id,
        ResolvedDesiredError::DuplicateResourceId { .. }
    ));
    assert_eq!(
        duplicate_id.to_text(),
        "duplicate desired resource ID: base/git"
    );

    let duplicate_target = ResolvedDesired::new(
        root_profile(),
        vec![
            resource("base/git", "git/config", ".gitconfig"),
            resource("base/zsh", "zshrc", ".gitconfig"),
        ],
    )
    .unwrap_err();
    assert!(matches!(
        duplicate_target,
        ResolvedDesiredError::DuplicateTarget { .. }
    ));
    assert_eq!(
        duplicate_target.to_text(),
        "desired target /tmp/loadout-domain-desired/home/.gitconfig is claimed by both base/git and base/zsh"
    );
}

#[test]
fn fingerprint_rejects_noncanonical_values() {
    assert!(ContentFingerprint::parse(
        "sha256:aaaaaaaaaaaaaaaaaaaaaaaaaaaaaaaaaaaaaaaaaaaaaaaaaaaaaaaaaaaaaaaa".to_string()
    )
    .is_ok());
    assert!(ContentFingerprint::parse(
        "sha256:AAAAAAAAAAAAAAAAAAAAAAAAAAAAAAAAAAAAAAAAAAAAAAAAAAAAAAAAAAAAAAAA".to_string()
    )
    .is_err());
}

#[test]
fn fingerprint_errors_say_what_is_wrong() {
    for (value, error, text) in [
        (
            "md5:00".to_string(),
            ContentFingerprintError::MissingPrefix,
            "content fingerprint is missing the sha256 prefix",
        ),
        (
            "sha256:00".to_string(),
            ContentFingerprintError::WrongLength,
            "content fingerprint must contain 64 hexadecimal characters",
        ),
        (
            format!("sha256:{}", "g".repeat(64)),
            ContentFingerprintError::NotLowercaseHex,
            "content fingerprint must use lowercase hexadecimal characters",
        ),
    ] {
        let found = ContentFingerprint::parse(value).unwrap_err();
        assert_eq!(found, error);
        assert_eq!(found.to_text(), text);
    }
}

#[test]
fn resources_never_lead_to_themselves() {
    assert_eq!(
        ResolvedFileLink::new(id("base/git"), path("/a"), path("/a")).unwrap_err(),
        ResolvedFileLinkError::SourceEqualsTarget
    );
    let fingerprint = ContentFingerprint::parse(format!("sha256:{}", "0".repeat(64))).unwrap();
    let error =
        ResolvedFileCopy::new(id("base/git"), path("/a"), path("/a"), fingerprint).unwrap_err();
    assert_eq!(error, ResolvedFileCopyError::SourceEqualsTarget);
    assert_eq!(
        error.to_text(),
        "a file-copy source and target must not be the same path"
    );
}

#[test]
fn every_variant_is_listed_and_only_links_are_resources() {
    let fingerprint = ContentFingerprint::parse(format!("sha256:{}", "0".repeat(64))).unwrap();
    let copy =
        ResolvedFileCopy::new(id("base/copy"), path("/s/c"), path("/h/c"), fingerprint).unwrap();
    let desired = ResolvedDesired::new(
        root_profile(),
        vec![
            resource("base/git", "git/config", ".gitconfig"),
            ResolvedResource::FileCopy(copy),
        ],
    )
    .unwrap();
    assert_eq!(desired.variants().len(), 2);
    assert_eq!(desired.variants()[0].resource_id().as_str(), "base/copy");
    assert_eq!(desired.resources().len(), 1);
}

#[test]
fn a_target_on_one_drive_is_claimed_once_whatever_the_case_of_its_letter() {
    let windows = |text: &str| ResolvedPath::new(text, Platform::Windows).unwrap();
    assert_eq!(
        ResolvedFileLink::new(id("base/git"), windows(r"c:\git"), windows(r"C:\git")),
        Err(ResolvedFileLinkError::SourceEqualsTarget)
    );
    let link = |identity: &str, target: &str| {
        ResolvedResource::FileLink(
            ResolvedFileLink::new(id(identity), windows(r"C:\s\git"), windows(target)).unwrap(),
        )
    };
    assert!(matches!(
        ResolvedDesired::new(
            root_profile(),
            vec![link("base/git", r"C:\h\git"), link("base/zsh", r"c:\h\git")],
        ),
        Err(ResolvedDesiredError::DuplicateTarget { target_path, .. })
            if target_path.as_path() == r"c:\h\git"
    ));
    assert!(ResolvedDesired::new(
        root_profile(),
        vec![link("base/git", r"C:\h\git"), link("base/zsh", r"d:\h\git")],
    )
    .is_ok());
}
