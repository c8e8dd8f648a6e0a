//! Tests for the one-line grammar parser, the legacy file converter's
//! classification, the os-release parser and the colon-output parser.

use aptsrc::codename::parse_etc_os_release;
use aptsrc::error::Error;
use aptsrc::options::KnownOptionName;
use aptsrc::options::OptionName;
use aptsrc::options::OptionValue;
use aptsrc::parse::ConvertedLineEntry;
use aptsrc::parse::ParseLineFileOptions;
use aptsrc::parse::parse_custom_option;
use aptsrc::parse::parse_line_entry;
use aptsrc::parse::parse_line_file;
use aptsrc::pgp::ColonOutput;
use aptsrc::types::SourceType;

fn known(name: KnownOptionName) -> OptionName {
    OptionName::Known(name)
}

fn text(value: &str) -> OptionValue {
    OptionValue::from_str_value(value)
}

fn list(values: &[&str]) -> OptionValue {
    OptionValue::List(values.iter().map(|v| String::from(*v)).collect())
}

#[test]
fn parse_fails_when_custom_option_is_malformed() {
    let option = String::from("foobar");

    assert_eq!(
        parse_custom_option(&option, false),
        Err(Error::MalformedOption { option })
    );
}

#[test]
fn parse_fails_when_custom_option_is_unkown() {
    assert_eq!(
        parse_custom_option("unknown=value", false),
        Err(Error::InvalidOptionName {
            name: String::from("unknown")
        })
    );
}

#[test]
fn parses_known_custom_option() {
    assert_eq!(
        parse_custom_option("arch=amd64", false),
        Ok((known(KnownOptionName::Architectures), text("amd64")))
    );
}

#[test]
fn parses_known_custom_option_with_multiple_values() {
    assert_eq!(
        parse_custom_option("arch=amd64,arm64", false),
        Ok((
            known(KnownOptionName::Architectures),
            list(&["amd64", "arm64"])
        ))
    );
}

#[test]
fn parses_unknown_custom_option() {
    assert_eq!(
        parse_custom_option("unknown=value", true),
        Ok((OptionName::Custom(String::from("unknown")), text("value")))
    );
}

#[test]
fn parses_valid_line_entry() {
    let entry = "deb [arch=amd64 lang=en,de] https://example.com suite component1 component2";

    let options = parse_line_entry(entry).unwrap();

    // The bare parser leaves `Enabled` unset; callers set it from
    // context.
    assert_eq!(
        options.options(),
        vec![
            (known(KnownOptionName::Types), text("deb")),
            (known(KnownOptionName::Uris), text("https://example.com")),
            (known(KnownOptionName::Suites), text("suite")),
            (
                known(KnownOptionName::Components),
                list(&["component1", "component2"])
            ),
            (known(KnownOptionName::Architectures), text("amd64")),
            (known(KnownOptionName::Languages), list(&["en", "de"])),
        ]
    );
}

#[test]
fn parse_fails_on_unrecognized_option_name() {
    let entry = "deb [unrecognized=foo] https://example.com suite component1 component2";

    assert!(matches!(
        parse_line_entry(entry),
        Err(Error::MalformedOneLineEntry { .. })
    ));
}

#[test]
fn parse_fails_when_not_enough_segments() {
    let entry = "deb https://example.com suite";

    assert!(matches!(
        parse_line_entry(entry),
        Err(Error::MalformedOneLineEntry { .. })
    ));
}

#[test]
fn parse_fails_when_options_list_not_closed() {
    let entry = "deb [arch=amd64 https://example.com suite";

    assert!(matches!(
        parse_line_entry(entry),
        Err(Error::MalformedOneLineEntry { .. })
    ));
}

#[test]
fn parse_fails_when_type_is_unrecognized() {
    let entry = "invalid-type https://example.com suite component";

    assert!(matches!(
        parse_line_entry(entry),
        Err(Error::MalformedOneLineEntry { .. })
    ));
}

fn parse_options(skip_comments: bool, skip_disabled: bool) -> ParseLineFileOptions {
    ParseLineFileOptions {
        skip_comments,
        skip_disabled,
    }
}

#[test]
fn parses_valid_line_file() {
    let file = "\
            deb https://example.com suite component
            deb-src https://example.com suite component
        ";

    let entries = parse_line_file(file, &parse_options(false, false)).unwrap();

    assert_eq!(entries.len(), 2);
    assert!(entries
        .iter()
        .all(|entry| matches!(entry, ConvertedLineEntry::Entry(_))));
}

#[test]
fn parses_comments_in_line_file() {
    let file = "\
            # comment
            deb https://example.com suite component
        ";

    let entries = parse_line_file(file, &parse_options(false, false)).unwrap();

    assert_eq!(entries.len(), 2);
    assert_eq!(
        entries[0],
        ConvertedLineEntry::Comment(String::from("comment"))
    );
    assert!(matches!(entries[1], ConvertedLineEntry::Entry(_)));
}

#[test]
fn skips_comments_in_line_file() {
    let file = "\
            # comment
            # deb https://example.com suite component
            deb https://example.com suite component
        ";

    let entries = parse_line_file(file, &parse_options(true, false)).unwrap();

    assert_eq!(entries.len(), 2);
    assert!(entries
        .iter()
        .all(|entry| matches!(entry, ConvertedLineEntry::Entry(_))));
}

#[test]
fn parses_disabled_entries_in_line_file() {
    let file = "\
            # deb https://example.com suite component
            deb https://example.com suite component
        ";

    let entries = parse_line_file(file, &parse_options(false, false)).unwrap();

    assert_eq!(entries.len(), 2);

    let enabled_flags: Vec<Option<bool>> = entries
        .iter()
        .map(|entry| match entry {
            ConvertedLineEntry::Entry(options) => options
                .options()
                .into_iter()
                .find(|(name, _)| *name == known(KnownOptionName::Enabled))
                .map(|(_, value)| value == OptionValue::Bool(true)),
            ConvertedLineEntry::Comment(_) => None,
        })
        .collect();

    assert_eq!(enabled_flags, vec![Some(false), Some(true)]);
}

#[test]
fn skips_disabled_entries_in_line_file() {
    let file = "\
            # comment
            # deb https://example.com suite component
            deb https://example.com suite component
        ";

    let entries = parse_line_file(file, &parse_options(false, true)).unwrap();

    assert_eq!(entries.len(), 2);
    assert_eq!(
        entries[0],
        ConvertedLineEntry::Comment(String::from("comment"))
    );
    assert!(matches!(entries[1], ConvertedLineEntry::Entry(_)));
}

#[test]
fn parser_ignores_blank_lines_in_line_file() {
    let file = "

            deb https://example.com suite component

            deb-src https://example.com suite component

        ";

    let entries = parse_line_file(file, &parse_options(false, false)).unwrap();

    assert_eq!(entries.len(), 2);
}

#[test]
fn malformed_active_line_fails_the_whole_file() {
    let file = "\
            deb https://example.com suite component
            not-a-directive at all
        ";

    assert!(matches!(
        parse_line_file(file, &parse_options(false, false)),
        Err(Error::MalformedOneLineEntry { .. })
    ));
}

const OS_RELEASE: &str = r#"
        NAME="Pop!_OS"
        VERSION="22.04 LTS"
        ID=pop
        ID_LIKE="ubuntu debian"
        PRETTY_NAME="Pop!_OS 22.04 LTS"
        VERSION_ID="22.04"
        HOME_URL="https://pop.system76.com"
        SUPPORT_URL="https://support.system76.com"
        BUG_REPORT_URL="https://github.com/pop-os/pop/issues"
        PRIVACY_POLICY_URL="https://system76.com/privacy"
        VERSION_CODENAME=jammy
        UBUNTU_CODENAME=jammy
        LOGO=distributor-logo-pop-os
    "#;

const MISSING_VERSION_OS_RELEASE: &str = r#"
        NAME="Pop!_OS"
        VERSION="22.04 LTS"
        ID=pop
        ID_LIKE="ubuntu debian"
        PRETTY_NAME="Pop!_OS 22.04 LTS"
        VERSION_ID="22.04"
        HOME_URL="https://pop.system76.com"
        SUPPORT_URL="https://support.system76.com"
        BUG_REPORT_URL="https://github.com/pop-os/pop/issues"
        PRIVACY_POLICY_URL="https://system76.com/privacy"
        LOGO=distributor-logo-pop-os
    "#;

#[test]
fn parses_os_release() {
    assert_eq!(parse_etc_os_release(OS_RELEASE), Ok(String::from("jammy")));
}

#[test]
fn fails_when_version_codename_is_missing() {
    assert_eq!(
        parse_etc_os_release(MISSING_VERSION_OS_RELEASE),
        Err(Error::CouldNotInferSuite)
    );
}

#[test]
fn source_type_keywords_round_trip() {
    assert_eq!(SourceType::from_str("deb"), Ok(SourceType::Deb));
    assert_eq!(SourceType::from_str("deb-src"), Ok(SourceType::DebSrc));
    assert_eq!(SourceType::Deb.to_str(), "deb");
    assert_eq!(SourceType::DebSrc.to_str(), "deb-src");
    assert!(matches!(
        SourceType::from_str("rpm"),
        Err(Error::MalformedOneLineEntry { .. })
    ));
}

#[test]
fn finds_the_public_key_id_in_colon_output() {
    let output = "\
tru::1:1699999999:0:3:1:5
pub:u:4096:1:89ABCDEF01234567:1600000000:::u:::scESC::::::23::0:
fpr:::::::::0123456789ABCDEF0123456789ABCDEF01234567:
";

    let id = ColonOutput::new(output).public_key_id();

    assert!(id.is_some());
    assert_eq!(id.unwrap().as_str(), "89ABCDEF01234567");
}

#[test]
fn reports_no_key_id_without_a_public_key_record() {
    let output = "\
tru::1:1699999999:0:3:1:5
fpr:::::::::0123456789ABCDEF0123456789ABCDEF01234567:
";

    assert!(ColonOutput::new(output).public_key_id().is_none());
}

#[test]
fn custom_options_are_trimmed_before_parsing() {
    assert_eq!(
        parse_custom_option("  arch=amd64  ", false),
        Ok((known(KnownOptionName::Architectures), text("amd64")))
    );
}

#[test]
fn codename_values_are_trimmed() {
    assert_eq!(
        parse_etc_os_release("ID=pop\nVERSION_CODENAME =  jammy  \n"),
        Ok(String::from("jammy"))
    );
}
