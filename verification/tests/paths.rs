use loadout::domain::paths::{
    has_windows_drive_prefix, Platform, ResolvedPath, ResolvedPathError, SourceRelativePath,
    SourceRelativePathError,
};

#[test]
fn resolved_path_normalizes_current_platform_absolute_paths() {
    let resolved =
        ResolvedPath::new("/tmp/loadout-resolved-path-test/./nested", Platform::Unix).unwrap();
    assert_eq!(resolved.as_path(), "/tmp/loadout-resolved-path-test/nested");
    assert!(matches!(
        ResolvedPath::new(
            r"C:\Temp\loadout-resolved-path-test\.\nested",
            Platform::Windows
        ),
        Err(ResolvedPathError::UnsupportedWindowsPath { .. })
    ));
}

#[test]
fn resolved_path_rejects_relative_and_home_relative_syntax() {
    for platform in [Platform::Unix, Platform::Windows] {
        assert!(matches!(
            ResolvedPath::new("relative/file", platform),
            Err(ResolvedPathError::NotAbsolute { .. })
        ));
        assert!(matches!(
            ResolvedPath::new("~/file", platform),
            Err(ResolvedPathError::NotAbsolute { .. })
        ));
    }
}

#[test]
fn resolved_path_rejects_parent_components_without_collapsing_them() {
    assert!(matches!(
        ResolvedPath::new(
            "/tmp/loadout-resolved-path-test/../outside",
            Platform::Unix
        ),
        Err(ResolvedPathError::ContainsParentComponent { .. })
    ));
    assert!(matches!(
        ResolvedPath::new(
            r"C:\Temp\loadout-resolved-path-test\..\outside",
            Platform::Windows
        ),
        Err(ResolvedPathError::UnsupportedWindowsPath { .. })
    ));
}

#[test]
fn resolved_path_preserves_ownership_of_its_native_buffer_only_at_the_boundary() {
    let path = "/tmp/loadout-resolved-path-test";
    assert_eq!(
        ResolvedPath::new(path, Platform::Unix)
            .unwrap()
            .into_path_buf(),
        path
    );
}

#[test]
fn source_relative_path_rejects_every_forbidden_declaration_syntax() {
    for raw_path in [
        "",
        "/absolute",
        "~/home-relative",
        "a//b",
        "a/./b",
        "a/../b",
        "a\\b",
        "C:config",
        "C:/absolute-on-windows",
    ] {
        assert_eq!(
            SourceRelativePath::parse(raw_path),
            Err(SourceRelativePathError::InvalidSyntax),
            "{raw_path:?} must not be a valid source path"
        );
    }

    assert_eq!(
        *SourceRelativePath::parse("git/config")
            .unwrap()
            .components(),
        ["git", "config"]
    );
}

#[test]
fn windows_drive_prefix_is_detected_lexically_on_every_host() {
    for path in ["C:", "C:config", "z:/absolute-on-windows"] {
        assert!(has_windows_drive_prefix(path), "{path:?} must be rejected");
    }
    for path in ["", ":config", "config:drive", "1:config", "git/config"] {
        assert!(
            !has_windows_drive_prefix(path),
            "{path:?} must not be treated as a drive prefix"
        );
    }
}

#[test]
fn windows_paths_accept_only_normal_dos_and_unc_and_canonicalize_separators() {
    for (input, expected) in [
        (r"C:\Users\Example\file", r"C:\Users\Example\file"),
        ("C:/Users/Example/file", r"C:\Users\Example\file"),
        (r"\\server\share\file", r"\\server\share\file"),
    ] {
        assert_eq!(
            ResolvedPath::new(input, Platform::Windows).unwrap().as_path(),
            expected,
            "{input:?}"
        );
    }
}

#[test]
fn windows_paths_reject_unsupported_namespaces_and_components() {
    for path in [
        r"C:relative",
        r"\\?\C:\Users\Example\file",
        r"\\?\UNC\server\share\file",
        r"\\.\C:\Users\Example\file",
        r"\\??\C:\Users\Example\file",
        r"C:\Users\.\file",
        r"C:\Users\..\file",
        r"C:\Users\file. ",
        r"C:\Users\CON.txt",
        r"C:\Users\file:stream",
        r"C:\Users\file?.txt",
        "C:\\Users\\file\u{0001}.txt",
        "C:\\Users\\file\u{001F}.txt",
        r"\\server",
    ] {
        assert!(
            ResolvedPath::new(path, Platform::Windows).is_err(),
            "{path:?}"
        );
    }
}

#[test]
fn windows_path_equality_remains_case_exact() {
    let first = ResolvedPath::new(r"C:\Users\Example\file", Platform::Windows).unwrap();
    let second = ResolvedPath::new(r"C:\Users\example\file", Platform::Windows).unwrap();
    assert_ne!(first, second);
    assert!(!first.same(&second));
}

#[test]
fn canonicalize_boundary_converts_only_os_verbatim_dos_and_unc_output() {
    assert_eq!(
        ResolvedPath::from_platform_canonicalized(
            r"\\?\C:\Users\Example\file",
            Platform::Windows,
            None
        )
        .unwrap()
        .as_path(),
        r"C:\Users\Example\file"
    );
    assert_eq!(
        ResolvedPath::from_platform_canonicalized(
            r"\\?\UNC\server\share\file",
            Platform::Windows,
            None
        )
        .unwrap()
        .as_path(),
        r"\\server\share\file"
    );
    assert!(ResolvedPath::from_platform_canonicalized(
        r"\\?\Volume{1234}\file",
        Platform::Windows,
        None
    )
    .is_err());
}

#[test]
fn canonicalize_boundary_prefers_the_long_spelling() {
    assert_eq!(
        ResolvedPath::from_platform_canonicalized(
            r"\\?\C:\PROGRA~1",
            Platform::Windows,
            Some(r"C:\Program Files")
        )
        .unwrap()
        .as_path(),
        r"C:\Program Files"
    );
}

#[test]
fn every_resolved_path_reads_back_as_itself() {
    for (path, platform) in [
        ("/", Platform::Unix),
        ("//a///b/./c/", Platform::Unix),
        ("C:/", Platform::Windows),
        (r"C:\a\b\", Platform::Windows),
        (r"\\server\share", Platform::Windows),
        (r"\\server\share\a", Platform::Windows),
    ] {
        let once = ResolvedPath::new(path, platform).unwrap();
        let again = ResolvedPath::new(once.as_path(), platform).unwrap();
        assert_eq!(once, again, "{path:?}");
        assert_eq!(once.as_path(), again.as_path(), "{path:?}");
    }
    assert_eq!(
        ResolvedPath::new("//a///b/./c/", Platform::Unix)
            .unwrap()
            .as_path(),
        "/a/b/c"
    );
}

#[test]
fn path_errors_say_what_is_wrong() {
    assert_eq!(
        ResolvedPath::new("a", Platform::Unix).unwrap_err().to_text(),
        "resolved paths must be absolute on the current platform: a"
    );
    assert_eq!(
        ResolvedPath::new("/a/../b", Platform::Unix)
            .unwrap_err()
            .to_text(),
        "resolved paths must not contain a parent ('..') component: /a/../b"
    );
    assert_eq!(
        ResolvedPath::new(r"C:\NUL", Platform::Windows)
            .unwrap_err()
            .to_text(),
        r"resolved path is not a supported normal Windows path: C:\NUL"
    );
}

#[test]
fn a_windows_drive_is_one_drive_in_either_case() {
    let windows = |text: &str| ResolvedPath::new(text, Platform::Windows).unwrap();
    let lower = windows(r"c:\Users\Example");
    let upper = windows(r"C:\Users\Example");
    assert!(lower.same(&upper));
    assert_eq!(lower, upper);
    assert_eq!(lower.as_path(), r"c:\Users\Example");
    assert_eq!(upper.as_path(), r"C:\Users\Example");
    assert_ne!(lower, windows(r"d:\Users\Example"));
    assert_ne!(lower, windows(r"C:\users\Example"));
    assert_ne!(
        windows(r"\\server\share\file"),
        windows(r"\\Server\share\file")
    );
    let unix = |text: &str| ResolvedPath::new(text, Platform::Unix).unwrap();
    assert_ne!(unix("/c:/a"), unix("/C:/a"));
}
