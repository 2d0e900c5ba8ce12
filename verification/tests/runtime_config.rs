use loadout::declaration::runtime_config::{RuntimeConfig, RuntimeConfigError};

#[test]
fn runtime_config_accepts_version_one_and_preserves_raw_path_syntax() {
    let config =
        RuntimeConfig::parse("schema_version: 1\nconfig_path: ~/dotfiles/loadout/config.yaml\n")
            .unwrap();

    assert_eq!(config.config_path(), Some("~/dotfiles/loadout/config.yaml"));
    assert_eq!(
        RuntimeConfig::parse("schema_version: 1\n")
            .unwrap()
            .config_path(),
        None
    );
}

#[test]
fn runtime_config_rejects_missing_or_unsupported_version_and_unknown_fields() {
    for (fixture, yaml) in [
        ("missing schema version", "config_path: config.yaml\n"),
        ("unsupported schema version", "schema_version: 2\n"),
        (
            "unknown top-level field",
            "schema_version: 1\nprofiles: {}\n",
        ),
        (
            "explicit null path",
            "schema_version: 1\nconfig_path: null\n",
        ),
    ] {
        assert!(RuntimeConfig::parse(yaml).is_err(), "{fixture} must reject");
    }
}

#[test]
fn selected_config_is_a_complete_parseable_version_one_document() {
    let yaml = RuntimeConfig::selected_config("/absolute/config.yaml").unwrap();
    assert_eq!(
        RuntimeConfig::parse(&yaml).unwrap().config_path(),
        Some("/absolute/config.yaml")
    );
}

#[test]
fn a_selected_path_is_written_below_its_version() {
    assert_eq!(
        RuntimeConfig::selected_config("/absolute/config.yaml").unwrap(),
        "schema_version: 1\nconfig_path: /absolute/config.yaml\n"
    );
}

#[test]
fn every_printable_path_reads_back_as_it_was_selected() {
    let printable: String = (' '..='~').collect();
    for path in [
        "",
        " ",
        "~",
        "null",
        "true",
        "1",
        "1.5",
        "0x10",
        ".inf",
        "- a",
        "a: b",
        "a #b",
        "'quoted'",
        "\"quoted\"",
        "!tag",
        "&anchor",
        "*alias",
        "{}",
        "[]",
        "---",
        "...",
        "| text",
        "> text",
        "% directive",
        "@at",
        "`tick",
        "? question",
        "trailing ",
        " leading",
        "2001-01-01",
        "<<",
        "C:\\Users\\me\\config.yaml",
        printable.as_str(),
    ] {
        let yaml = RuntimeConfig::selected_config(path).unwrap();
        assert_eq!(
            RuntimeConfig::parse(&yaml).unwrap().config_path(),
            Some(path),
            "{yaml}"
        );
    }
    let long = "a/".repeat(3000);
    let yaml = RuntimeConfig::selected_config(&long).unwrap();
    assert_eq!(
        RuntimeConfig::parse(&yaml).unwrap().config_path(),
        Some(long.as_str())
    );
}

#[test]
fn a_selected_path_reads_back_whatever_its_characters_are() {
    let reads_back = |path: &str| {
        let yaml = RuntimeConfig::selected_config(path).unwrap();
        assert_eq!(
            RuntimeConfig::parse(&yaml).unwrap().config_path(),
            Some(path),
            "{yaml}"
        );
    };
    let characters: Vec<char> = ('\0'..=char::MAX).collect();
    for part in characters.chunks(64) {
        let text: String = part.iter().collect();
        reads_back(&text);
        reads_back(&text.chars().rev().collect::<String>());
    }
    for character in characters.iter().take_while(|character| **character < '\u{3100}') {
        for path in [
            format!("{character}"),
            format!("{character}a"),
            format!("a{character}"),
            format!("a {character} b"),
            format!("{character} #{character}: - {character}"),
            format!("{character}'\"\\{character}"),
        ] {
            reads_back(&path);
        }
    }
    let breaks = ['\n', ' ', 'a', '\u{2028}', '\r', '-', '\t'];
    let count: usize = breaks.len();
    for length in 0..=5u32 {
        for number in 0..count.pow(length) {
            let text: String = (0..length)
                .map(|place| breaks[number / count.pow(place) % count])
                .collect();
            reads_back(&text);
        }
    }
}

#[test]
fn each_refusal_has_its_reason() {
    for (yaml, error) in [
        ("config_path: a\n", RuntimeConfigError::MissingSchemaVersion),
        (
            "schema_version: 2\n",
            RuntimeConfigError::UnsupportedSchemaVersion,
        ),
        (
            "schema_version: '1'\n",
            RuntimeConfigError::UnsupportedSchemaVersion,
        ),
        (
            "schema_version: 1\nother: 2\n",
            RuntimeConfigError::UnknownField {
                name: Some("other".to_string()),
            },
        ),
        (
            "schema_version: 1\n2: 2\n",
            RuntimeConfigError::UnknownField { name: None },
        ),
        (
            "schema_version: 1\nconfig_path: [a]\n",
            RuntimeConfigError::InvalidConfigPath,
        ),
    ] {
        assert_eq!(RuntimeConfig::parse(yaml).unwrap_err(), error, "{yaml}");
    }
    assert_eq!(
        RuntimeConfig::parse("schema_version: 1\nprofiles: {}\n")
            .unwrap_err()
            .to_text(),
        "unknown field `profiles`, expected `schema_version` or `config_path`"
    );
    assert!(matches!(
        RuntimeConfig::parse("- a\n"),
        Err(RuntimeConfigError::Yaml { .. })
    ));
    assert!(matches!(
        RuntimeConfig::parse("schema_version: 1\nschema_version: 1\n"),
        Err(RuntimeConfigError::Yaml { .. })
    ));
}
