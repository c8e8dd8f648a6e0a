//! Tests for the option model: value formatting, empty-value
//! suppression, canonical ordering, and the reserved key name.

use aptsrc::error::Error;
use aptsrc::key::SigningKey;
use aptsrc::options::KnownOptionName;
use aptsrc::options::OptionMap;
use aptsrc::options::OptionName;
use aptsrc::options::OptionValue;
use aptsrc::types::SourceType;

fn known(name: KnownOptionName) -> OptionName {
    OptionName::Known(name)
}

fn custom(name: &str) -> OptionName {
    OptionName::Custom(String::from(name))
}

fn text(value: &str) -> OptionValue {
    OptionValue::from_str_value(value)
}

#[test]
fn bool_option_values_are_formatted_correctly() {
    assert_eq!(OptionValue::from_bool(true).to_deb822(), "yes");
    assert_eq!(OptionValue::from_bool(false).to_deb822(), "no");
}

#[test]
fn string_option_values_are_formatted_correctly() {
    assert_eq!(text("foobar").to_deb822(), "foobar");
}

#[test]
fn list_option_values_are_formatted_correctly() {
    let value = OptionValue::from_list(vec![
        String::from("value1"),
        String::from("value2"),
        String::from("value3"),
    ]);
    assert_eq!(value.to_deb822(), "value1 value2 value3");
}

#[test]
fn multiline_option_values_are_formatted_correctly() {
    let value = OptionValue::Multiline(vec![
        String::from("value1"),
        String::from(""),
        String::from("value3"),
    ]);
    assert_eq!(value.to_deb822(), "\n value1\n .\n value3\n");
}

#[test]
fn options_are_sorted_correctly() {
    let mut map = OptionMap::new();

    map.insert(custom("option-d"), text("value-d"));
    map.insert(custom("option-b"), text("value-b"));
    map.insert(custom("option-c"), text("value-c"));
    map.insert(custom("option-a"), text("value-a"));
    map.insert(
        known(KnownOptionName::Uris),
        OptionValue::from_list(vec![String::from("https://example.com")]),
    );
    map.insert(
        known(KnownOptionName::Types),
        OptionValue::from_list(vec![String::from(SourceType::Deb.to_str())]),
    );
    map.insert(
        known(KnownOptionName::Suites),
        OptionValue::from_list(vec![String::from("jammy")]),
    );
    map.insert(known(KnownOptionName::Enabled), OptionValue::from_bool(true));

    assert_eq!(
        map.options(),
        vec![
            // Known options have a canonical sort order.
            (known(KnownOptionName::Enabled), OptionValue::Bool(true)),
            (known(KnownOptionName::Types), text("deb")),
            (known(KnownOptionName::Uris), text("https://example.com")),
            (known(KnownOptionName::Suites), text("jammy")),
            // Custom options come after known options and are sorted
            // by their option name.
            (custom("option-a"), text("value-a")),
            (custom("option-b"), text("value-b")),
            (custom("option-c"), text("value-c")),
            (custom("option-d"), text("value-d")),
        ]
    );
}

#[test]
fn fails_on_conflicting_key_locations() {
    let mut map = OptionMap::new();

    map.insert(known(KnownOptionName::SignedBy), text("/path/to/key.gpg"));

    let result = map.insert_key(SigningKey::Inline {
        value: text("encoded key bytes"),
    });

    assert_eq!(result, Err(Error::ConflictingKeyLocations));
}

#[test]
fn insertion_order_does_not_change_the_output() {
    let mut first = OptionMap::new();
    first.insert(known(KnownOptionName::Types), text("deb"));
    first.insert(known(KnownOptionName::Uris), text("https://example.com"));
    first.insert(known(KnownOptionName::Suites), text("jammy"));
    first.insert(known(KnownOptionName::Enabled), OptionValue::from_bool(true));
    first.insert(custom("b-option"), text("two"));
    first.insert(custom("a-option"), text("one"));

    let mut second = OptionMap::new();
    second.insert(custom("a-option"), text("one"));
    second.insert(known(KnownOptionName::Enabled), OptionValue::from_bool(true));
    second.insert(known(KnownOptionName::Suites), text("jammy"));
    second.insert(custom("b-option"), text("two"));
    second.insert(known(KnownOptionName::Uris), text("https://example.com"));
    second.insert(known(KnownOptionName::Types), text("deb"));

    assert_eq!(first.options(), second.options());
    assert_eq!(
        aptsrc::entry::render_options(&first),
        aptsrc::entry::render_options(&second),
    );
    assert_eq!(
        aptsrc::entry::render_options(&first),
        "Enabled: yes\nTypes: deb\nURIs: https://example.com\nSuites: jammy\n\
         a-option: one\nb-option: two\n",
    );
}

#[test]
fn empty_values_are_never_inserted() {
    let mut map = OptionMap::new();

    map.insert(known(KnownOptionName::Components), OptionValue::Text(String::from("  ")));
    map.insert(known(KnownOptionName::Architectures), OptionValue::List(Vec::new()));
    map.insert(known(KnownOptionName::SignedBy), OptionValue::Multiline(Vec::new()));

    assert!(!map.contains(&known(KnownOptionName::Components)));
    assert!(!map.contains(&known(KnownOptionName::Architectures)));
    assert!(!map.contains(&known(KnownOptionName::SignedBy)));
    assert_eq!(map.options(), Vec::new());
    assert_eq!(aptsrc::entry::render_options(&map), "");
}

#[test]
fn inserting_again_replaces_the_value() {
    let mut map = OptionMap::new();

    map.insert(known(KnownOptionName::Suites), text("jammy"));
    map.insert(known(KnownOptionName::Suites), text("noble"));

    assert_eq!(
        map.options(),
        vec![(known(KnownOptionName::Suites), text("noble"))]
    );
}

#[test]
fn boolean_tokens_become_booleans() {
    assert_eq!(text("yes"), OptionValue::Bool(true));
    assert_eq!(text("TRUE"), OptionValue::Bool(true));
    assert_eq!(text("no"), OptionValue::Bool(false));
    assert_eq!(text("False"), OptionValue::Bool(false));
    assert_eq!(text("maybe"), OptionValue::Text(String::from("maybe")));
}

#[test]
fn signing_key_file_is_recorded_as_its_path() {
    let mut map = OptionMap::new();

    let result = map.insert_key(SigningKey::File {
        path: String::from("/etc/apt/keyrings/myrepo.gpg"),
    });

    assert_eq!(result, Ok(()));
    assert_eq!(
        map.options(),
        vec![(
            known(KnownOptionName::SignedBy),
            text("/etc/apt/keyrings/myrepo.gpg"),
        )]
    );
}
