//! Tests for the install/overwrite state machine, the append
//! separator rule, file-path resolution, the converter's plan and
//! output, and argument validation.

use aptsrc::args::BackupMode;
use aptsrc::args::ConvertLocator;
use aptsrc::cli;
use aptsrc::convert::EntryConverter;
use aptsrc::convert::IoStream;
use aptsrc::entry::InstallPlan;
use aptsrc::entry::InstallPlanAction;
use aptsrc::entry::OverwriteAction;
use aptsrc::entry::SourceEntry;
use aptsrc::error::Error;
use aptsrc::file::SourceFile;
use aptsrc::file::SourceFileKind;
use aptsrc::file::SourceFilePath;
use aptsrc::key::KeyDest;
use aptsrc::options::KnownOptionName;
use aptsrc::options::OptionMap;
use aptsrc::options::OptionName;
use aptsrc::options::OptionValue;
use aptsrc::parse::ConvertedLineEntry;
use aptsrc::parse::ParseLineFileOptions;
use aptsrc::parse::parse_line_file;

fn sample_entry() -> SourceEntry {
    let mut map = OptionMap::new();
    map.insert(
        OptionName::Known(KnownOptionName::Enabled),
        OptionValue::from_bool(true),
    );
    map.insert(
        OptionName::Known(KnownOptionName::Types),
        OptionValue::from_str_value("deb"),
    );
    map.insert(
        OptionName::Known(KnownOptionName::Uris),
        OptionValue::from_str_value("https://example.com"),
    );
    map.insert(
        OptionName::Known(KnownOptionName::Suites),
        OptionValue::from_str_value("suite"),
    );
    map.insert(
        OptionName::Known(KnownOptionName::Components),
        OptionValue::from_str_value("component"),
    );
    SourceEntry::new(map, None)
}

const SAMPLE_STANZA: &str = "Enabled: yes\nTypes: deb\nURIs: https://example.com\n\
                             Suites: suite\nComponents: component\n";

#[test]
fn install_plan_matrix_matches_the_policy_table() {
    // Missing target: created under every policy.
    for action in [
        OverwriteAction::Overwrite,
        OverwriteAction::Append,
        OverwriteAction::Fail,
    ] {
        let plan = InstallPlan::new("/tmp/x.sources", false, action).unwrap();
        assert_eq!(plan.action, InstallPlanAction::Create);
        assert_eq!(plan.path, "/tmp/x.sources");
    }

    // Existing target: policy decides.
    let plan = InstallPlan::new("/tmp/x.sources", true, OverwriteAction::Overwrite).unwrap();
    assert_eq!(plan.action, InstallPlanAction::Overwrite);

    let plan = InstallPlan::new("/tmp/x.sources", true, OverwriteAction::Append).unwrap();
    assert_eq!(plan.action, InstallPlanAction::Append);

    assert_eq!(
        InstallPlan::new("/tmp/x.sources", true, OverwriteAction::Fail),
        Err(Error::NewSourceFileAlreadyExists {
            path: String::from("/tmp/x.sources")
        })
    );
}

#[test]
fn overwrite_writes_the_stanza_alone() {
    let entry = sample_entry();
    let existing = String::from("Old: content\n");

    let output = entry.install_output(Some(&existing), OverwriteAction::Overwrite);

    assert_eq!(output, SAMPLE_STANZA);
}

#[test]
fn append_separates_stanzas_by_exactly_one_blank_line() {
    let entry = sample_entry();

    for initial in ["", "Old: entry\n", "Old: entry\n\n", "Old: entry"] {
        let first = entry.install_output(Some(&String::from(initial)), OverwriteAction::Append);
        let second = entry.install_output(Some(&first), OverwriteAction::Append);

        let double_newlines = second.matches("\n\n").count();
        let expected_between_initial = match initial {
            "" => 0,
            "Old: entry" => 0,
            "Old: entry\n" => 1,
            _ => 1,
        };
        assert_eq!(double_newlines, 1 + expected_between_initial);
        assert!(second.ends_with(SAMPLE_STANZA));
        let separated = format!("{}\n{}", SAMPLE_STANZA, SAMPLE_STANZA);
        assert!(second.ends_with(&separated));
    }
}

#[test]
fn installed_files_resolve_under_the_sources_directory() {
    let file = SourceFile {
        path: SourceFilePath::Installed {
            dir: String::from("/etc/apt/sources.list.d"),
            name: String::from("myrepo"),
        },
        kind: SourceFileKind::Deb822,
    };
    assert_eq!(file.path(), "/etc/apt/sources.list.d/myrepo.sources");
    assert_eq!(file.extension(), "sources");

    let legacy = SourceFile {
        path: SourceFilePath::Installed {
            dir: String::from("/etc/apt/sources.list.d"),
            name: String::from("myrepo"),
        },
        kind: SourceFileKind::OneLine,
    };
    assert_eq!(legacy.path(), "/etc/apt/sources.list.d/myrepo.list");

    let explicit = SourceFile {
        path: SourceFilePath::File {
            path: String::from("/tmp/anywhere.list"),
        },
        kind: SourceFileKind::OneLine,
    };
    assert_eq!(explicit.path(), "/tmp/anywhere.list");
}

fn convert_cli(name: Option<&str>) -> cli::Convert {
    cli::Convert {
        name: name.map(String::from),
        in_path: None,
        out_path: None,
        backup: false,
        backup_to: None,
        skip_comments: false,
        skip_disabled: false,
    }
}

#[test]
fn conversion_classifies_comments_disabled_and_active_lines() {
    let file = "\
            # just a note
            # deb https://example.com suite component
            deb https://example.com suite component
        ";

    let entries = parse_line_file(
        file,
        &ParseLineFileOptions {
            skip_comments: false,
            skip_disabled: false,
        },
    )
    .unwrap();

    assert_eq!(entries.len(), 3);
    assert_eq!(
        entries[0],
        ConvertedLineEntry::Comment(String::from("just a note"))
    );
    let enabled: Vec<Option<OptionValue>> = entries[1..]
        .iter()
        .map(|entry| match entry {
            ConvertedLineEntry::Entry(options) => options
                .options()
                .into_iter()
                .find(|(name, _)| *name == OptionName::Known(KnownOptionName::Enabled))
                .map(|(_, value)| value),
            ConvertedLineEntry::Comment(_) => None,
        })
        .collect();
    assert_eq!(
        enabled,
        vec![Some(OptionValue::Bool(false)), Some(OptionValue::Bool(true))]
    );

    let skipping_disabled = parse_line_file(
        file,
        &ParseLineFileOptions {
            skip_comments: false,
            skip_disabled: true,
        },
    )
    .unwrap();
    assert_eq!(skipping_disabled.len(), 2);
    assert_eq!(
        skipping_disabled[0],
        ConvertedLineEntry::Comment(String::from("just a note"))
    );

    let skipping_comments = parse_line_file(
        file,
        &ParseLineFileOptions {
            skip_comments: true,
            skip_disabled: false,
        },
    )
    .unwrap();
    assert_eq!(skipping_comments.len(), 2);
    assert!(skipping_comments
        .iter()
        .all(|entry| matches!(entry, ConvertedLineEntry::Entry(_))));
}

#[test]
fn converter_renders_comments_and_stanzas_in_order() {
    let file = "\
# a comment
deb https://example.com suite component
deb-src https://example.com suite component
";
    let entries = parse_line_file(
        file,
        &ParseLineFileOptions {
            skip_comments: false,
            skip_disabled: false,
        },
    )
    .unwrap();

    let converter = EntryConverter {
        entries,
        backup_mode: None,
        in_file: IoStream::Stdio,
        out_file: IoStream::Stdio,
    };

    let expected = "# a comment\n\
                    \n\
                    Enabled: yes\n\
                    Types: deb\n\
                    URIs: https://example.com\n\
                    Suites: suite\n\
                    Components: component\n\
                    \n\
                    Enabled: yes\n\
                    Types: deb-src\n\
                    URIs: https://example.com\n\
                    Suites: suite\n\
                    Components: component\n";
    assert_eq!(converter.convert_output(), expected);
}

#[test]
fn converter_plans_backup_creation_and_removal() {
    let in_file = IoStream::File(SourceFile {
        path: SourceFilePath::Installed {
            dir: String::from("/etc/apt/sources.list.d"),
            name: String::from("myrepo"),
        },
        kind: SourceFileKind::OneLine,
    });
    let out_file = IoStream::File(SourceFile {
        path: SourceFilePath::Installed {
            dir: String::from("/etc/apt/sources.list.d"),
            name: String::from("myrepo"),
        },
        kind: SourceFileKind::Deb822,
    });
    let converter = EntryConverter {
        entries: Vec::new(),
        backup_mode: Some(aptsrc::convert::BackupMode::Backup),
        in_file,
        out_file,
    };

    let backup_plan = converter.backup_plan().unwrap();
    assert_eq!(backup_plan.original, "/etc/apt/sources.list.d/myrepo.list");
    assert_eq!(
        backup_plan.backup,
        "/etc/apt/sources.list.d/myrepo.list.bak"
    );

    let plan = converter.plan();
    assert_eq!(
        plan.backed_up,
        Some(String::from("/etc/apt/sources.list.d/myrepo.list.bak"))
    );
    assert_eq!(
        plan.created,
        Some(String::from("/etc/apt/sources.list.d/myrepo.sources"))
    );
    assert_eq!(
        plan.removed,
        Some(String::from("/etc/apt/sources.list.d/myrepo.list"))
    );
}

#[test]
fn conversion_streams_resolve_names_paths_and_stdio() {
    let by_name = convert_cli(Some("myrepo"));
    assert!(matches!(
        by_name.in_file("/etc/apt/sources.list.d"),
        Ok(IoStream::File(SourceFile {
            kind: SourceFileKind::OneLine,
            ..
        }))
    ));
    assert!(matches!(
        by_name.out_file("/etc/apt/sources.list.d"),
        Ok(IoStream::File(SourceFile {
            kind: SourceFileKind::Deb822,
            ..
        }))
    ));

    let mut by_path = convert_cli(None);
    by_path.in_path = Some(String::from("-"));
    by_path.out_path = Some(String::from("/tmp/out.sources"));
    assert!(matches!(
        by_path.in_file("/etc/apt/sources.list.d"),
        Ok(IoStream::Stdio)
    ));
    assert!(matches!(
        by_path.out_file("/etc/apt/sources.list.d"),
        Ok(IoStream::File(_))
    ));

    let missing = convert_cli(None);
    assert!(missing.in_file("/etc/apt/sources.list.d").is_err());
}

#[test]
fn convert_locator_rejects_contradictory_arguments() {
    let by_name = convert_cli(Some("myrepo"));
    assert!(matches!(
        ConvertLocator::from_cli(&by_name),
        Ok(ConvertLocator::Name { .. })
    ));

    let mut backed_up = convert_cli(Some("myrepo"));
    backed_up.backup = true;
    assert!(matches!(
        ConvertLocator::from_cli(&backed_up),
        Ok(ConvertLocator::Name {
            backup: Some(BackupMode::Backup),
            ..
        })
    ));

    let mut contradictory = convert_cli(Some("myrepo"));
    contradictory.in_path = Some(String::from("/tmp/in.list"));
    assert!(ConvertLocator::from_cli(&contradictory).is_err());

    let mut both_backups = convert_cli(Some("myrepo"));
    both_backups.backup = true;
    both_backups.backup_to = Some(String::from("/tmp/backup.list"));
    assert!(ConvertLocator::from_cli(&both_backups).is_err());

    let missing_out = {
        let mut args = convert_cli(None);
        args.in_path = Some(String::from("/tmp/in.list"));
        args
    };
    assert!(ConvertLocator::from_cli(&missing_out).is_err());
}

#[test]
fn key_destination_defaults_to_the_keyring_directory() {
    let default_dest = cli::KeyDestinationArgs {
        key_path: None,
        inline_key: false,
    };
    assert_eq!(
        KeyDest::from_cli(&default_dest, "myrepo"),
        Ok(KeyDest::File {
            path: String::from("/etc/apt/keyrings/myrepo.gpg")
        })
    );

    let inline = cli::KeyDestinationArgs {
        key_path: None,
        inline_key: true,
    };
    assert_eq!(KeyDest::from_cli(&inline, "myrepo"), Ok(KeyDest::Inline));

    let explicit = cli::KeyDestinationArgs {
        key_path: Some(String::from("/tmp/key.gpg")),
        inline_key: false,
    };
    assert_eq!(
        KeyDest::from_cli(&explicit, "myrepo"),
        Ok(KeyDest::File {
            path: String::from("/tmp/key.gpg")
        })
    );

    let contradictory = cli::KeyDestinationArgs {
        key_path: Some(String::from("/tmp/key.gpg")),
        inline_key: true,
    };
    assert!(KeyDest::from_cli(&contradictory, "myrepo").is_err());
}

#[test]
fn overwrite_flags_resolve_to_an_action() {
    let args = |overwrite, append| cli::OverwriteArgs { overwrite, append };

    assert_eq!(
        OverwriteAction::from_cli(&args(true, false)),
        Ok(OverwriteAction::Overwrite)
    );
    assert_eq!(
        OverwriteAction::from_cli(&args(false, true)),
        Ok(OverwriteAction::Append)
    );
    assert_eq!(
        OverwriteAction::from_cli(&args(false, false)),
        Ok(OverwriteAction::Fail)
    );
    assert!(OverwriteAction::from_cli(&args(true, true)).is_err());
}

#[test]
fn inlined_keys_render_as_a_multiline_block() {
    let armored = "-----BEGIN PGP PUBLIC KEY BLOCK-----\n\nvalue1\n\nvalue3\n\
                   -----END PGP PUBLIC KEY BLOCK-----\n";
    let value = aptsrc::key::inline_key_value(armored);

    let mut map = OptionMap::new();
    map.insert_key(aptsrc::key::SigningKey::Inline { value }).unwrap();
    let rendered = aptsrc::entry::render_options(&map);

    assert_eq!(
        rendered,
        "Signed-By:\n -----BEGIN PGP PUBLIC KEY BLOCK-----\n .\n value1\n .\n value3\n \
         -----END PGP PUBLIC KEY BLOCK-----\n"
    );
}

#[test]
fn new_arguments_build_the_full_option_map() {
    let mut custom = OptionMap::new();
    custom.insert(
        OptionName::Custom(String::from("x-extra")),
        OptionValue::from_str_value("1"),
    );

    let args = aptsrc::args::NewArgs {
        name: String::from("myrepo"),
        kinds: vec![aptsrc::types::SourceType::Deb],
        uris: vec![String::from("https://example.com")],
        description: Some(String::from("An example repo")),
        suites: vec![String::from("jammy")],
        components: vec![String::from("main"), String::from("universe")],
        arch: vec![String::from("amd64")],
        lang: Vec::new(),
        disabled: false,
        options: custom,
        key: aptsrc::args::KeyArgs {
            source: None,
            dest: KeyDest::Inline,
        },
        action: OverwriteAction::Fail,
    };

    assert_eq!(
        args.options().options(),
        vec![
            (
                OptionName::Known(KnownOptionName::RepolibName),
                OptionValue::Text(String::from("An example repo"))
            ),
            (
                OptionName::Known(KnownOptionName::Enabled),
                OptionValue::Bool(true)
            ),
            (
                OptionName::Known(KnownOptionName::Types),
                OptionValue::Text(String::from("deb"))
            ),
            (
                OptionName::Known(KnownOptionName::Uris),
                OptionValue::Text(String::from("https://example.com"))
            ),
            (
                OptionName::Known(KnownOptionName::Suites),
                OptionValue::Text(String::from("jammy"))
            ),
            (
                OptionName::Known(KnownOptionName::Components),
                OptionValue::List(vec![String::from("main"), String::from("universe")])
            ),
            (
                OptionName::Known(KnownOptionName::Architectures),
                OptionValue::Text(String::from("amd64"))
            ),
            (
                OptionName::Custom(String::from("x-extra")),
                OptionValue::Text(String::from("1"))
            ),
        ]
    );
}

#[test]
fn add_arguments_apply_enabled_and_description() {
    let args = aptsrc::args::AddArgs {
        name: String::from("myrepo"),
        line: String::from("deb https://example.com suite component"),
        description: Some(String::from("An example repo")),
        key: aptsrc::args::KeyArgs {
            source: None,
            dest: KeyDest::Inline,
        },
        disabled: true,
        action: OverwriteAction::Fail,
    };

    let map = args.options().unwrap();
    let listed = map.options();

    assert!(listed.contains(&(
        OptionName::Known(KnownOptionName::Enabled),
        OptionValue::Bool(false)
    )));
    assert!(listed.contains(&(
        OptionName::Known(KnownOptionName::RepolibName),
        OptionValue::Text(String::from("An example repo"))
    )));
}

#[test]
fn entry_can_be_built_from_validated_add_arguments() {
    let args = aptsrc::args::AddArgs {
        name: String::from("myrepo"),
        line: String::from("nonsense"),
        description: None,
        key: aptsrc::args::KeyArgs {
            source: None,
            dest: KeyDest::Inline,
        },
        disabled: false,
        action: OverwriteAction::Fail,
    };

    assert!(matches!(
        SourceEntry::from_add(&args),
        Err(Error::MalformedOneLineEntry { .. })
    ));
}
