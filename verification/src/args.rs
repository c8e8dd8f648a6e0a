//! Validated command-line arguments.
//!
//! The types here mirror the raw command-line structures, but modeled
//! so that required and mutually exclusive options are enforced, and
//! the option map of the entry to install can be derived.

use vstd::prelude::*;

use crate::cli;
use crate::entry::OverwriteAction;
use crate::error::Error;
use crate::key::KeyDest;
use crate::key::KeySource;
use crate::options::KnownOptionName;
use crate::options::OptionMap;
use crate::options::OptionName;
use crate::options::OptionNameV;
use crate::options::OptionValue;
use crate::options::OptionValueV;
use crate::options::spec_insert;
use crate::options::value_of_list;
use crate::options::value_of_token;
use crate::parse::line_map;
use crate::parse::line_parses;
use crate::types::SourceType;
use crate::types::keyword_spec;

verus! {

use vstd::string::StringExecFns;

impl KeyDest {
    /// Where to install the signing key, from the raw arguments: the
    /// explicit path, or inline, or the default keyring path derived
    /// from the source name.  Asking for both an explicit path and an
    /// inline key is contradictory and refused.
    pub fn from_cli(args: &cli::KeyDestinationArgs, name: &str) -> (r: Result<KeyDest, String>)
        ensures
            match (args.key_path, args.inline_key) {
                (None, true) => r matches Ok(KeyDest::Inline),
                (None, false) => r matches Ok(KeyDest::File { path }) && path@
                    == "/etc/apt/keyrings/"@ + name@ + ".gpg"@,
                (Some(_), true) => r is Err,
                (Some(p), false) => r matches Ok(KeyDest::File { path }) && path@ == p@,
            },
    {
        match (&args.key_path, args.inline_key) {
            (None, true) => Ok(KeyDest::Inline),
            (None, false) => {
                let mut path = String::from_str("/etc/apt/keyrings/");
                path.append(name);
                path.append(".gpg");
                Ok(KeyDest::File { path })
            },
            (Some(_), true) => Err(
                String::from_str("cannot both inline key and install it to a file"),
            ),
            (Some(path), false) => Ok(KeyDest::File { path: path.clone() }),
        }
    }
}

impl OverwriteAction {
    /// The overwrite action the raw flags ask for.  Asking to both
    /// overwrite and append is contradictory and refused.
    pub fn from_cli(args: &cli::OverwriteArgs) -> (r: Result<OverwriteAction, String>)
        ensures
            match (args.overwrite, args.append) {
                (true, true) => r is Err,
                (true, false) => r == Ok::<OverwriteAction, String>(OverwriteAction::Overwrite),
                (false, true) => r == Ok::<OverwriteAction, String>(OverwriteAction::Append),
                (false, false) => r == Ok::<OverwriteAction, String>(OverwriteAction::Fail),
            },
    {
        match (args.overwrite, args.append) {
            (true, true) => Err(String::from_str("cannot both overwrite and append")),
            (true, false) => Ok(OverwriteAction::Overwrite),
            (false, true) => Ok(OverwriteAction::Append),
            (false, false) => Ok(OverwriteAction::Fail),
        }
    }
}

/// Arguments for locating a key and where to install it.
#[derive(Debug, Clone)]
pub struct KeyArgs {
    /// Where the key comes from, if one is installed at all.
    pub source: Option<KeySource>,
    /// Where the key is installed to.
    pub dest: KeyDest,
}

/// How to back up a source file when converting.
#[derive(Debug, Clone, PartialEq, Eq)]
pub enum BackupMode {
    /// Back up beside the original, with the backup suffix appended.
    Backup,
    /// Back up to an explicit path.
    BackupTo { path: String },
}

impl BackupMode {
    /// The backup mode the raw flags ask for.  Asking for both the
    /// default backup path and an explicit one is contradictory and
    /// refused.
    pub fn from_cli(args: &cli::Convert) -> (r: Result<Option<BackupMode>, String>)
        ensures
            match (args.backup, args.backup_to) {
                (true, None) => r == Ok::<Option<BackupMode>, String>(Some(BackupMode::Backup)),
                (true, Some(_)) => r is Err,
                (false, None) => r == Ok::<Option<BackupMode>, String>(None),
                (false, Some(p)) => r matches Ok(Some(BackupMode::BackupTo { path })) && path@
                    == p@,
            },
    {
        match (args.backup, &args.backup_to) {
            (true, None) => Ok(Some(BackupMode::Backup)),
            (true, Some(_)) => Err(
                String::from_str(
                    "cannot both backup to the default path and also backup to a different path",
                ),
            ),
            (false, None) => Ok(None),
            (false, Some(path)) => Ok(Some(BackupMode::BackupTo { path: path.clone() })),
        }
    }
}

/// The locations of the source and destination files when converting.
#[derive(Debug, Clone)]
pub enum ConvertLocator {
    /// Convert an installed source file in place, by name.
    Name { name: String, backup: Option<BackupMode> },
    /// Convert an explicit input path to an explicit output path.
    File { source: String, dest: String },
}

impl ConvertLocator {
    /// The locator the raw arguments ask for: either a name, or both
    /// explicit paths; a name mixed with explicit paths, or a missing
    /// path, is refused.
    pub fn from_cli(args: &cli::Convert) -> (r: Result<ConvertLocator, String>)
        ensures
            match args.name {
                Some(n) => if args.in_path is Some || args.out_path is Some {
                    r is Err
                } else {
                    (r matches Ok(ConvertLocator::Name { name, backup }) && name@ == n@ && match (
                        args.backup,
                        args.backup_to,
                    ) {
                        (true, None) => backup == Some(BackupMode::Backup),
                        (true, Some(_)) => false,
                        (false, None) => backup is None,
                        (false, Some(p)) => backup matches Some(BackupMode::BackupTo { path })
                            && path@ == p@,
                    }) || (args.backup && args.backup_to is Some && r is Err)
                },
                None => match (args.in_path, args.out_path) {
                    (Some(s), Some(d)) => r matches Ok(ConvertLocator::File { source, dest })
                        && source@ == s@ && dest@ == d@,
                    _ => r is Err,
                },
            },
    {
        match &args.name {
            Some(name) => {
                if args.in_path.is_some() || args.out_path.is_some() {
                    return Err(
                        String::from_str("cannot specify both a source name and in/out file paths"),
                    );
                }
                let backup = match BackupMode::from_cli(args) {
                    Ok(b) => b,
                    Err(e) => {
                        return Err(e);
                    },
                };
                Ok(ConvertLocator::Name { name: name.clone(), backup })
            },
            None => match (&args.in_path, &args.out_path) {
                (Some(source), Some(dest)) => Ok(
                    ConvertLocator::File { source: source.clone(), dest: dest.clone() },
                ),
                _ => Err(
                    String::from_str(
                        "must specify either a source name or both of the in/out file paths",
                    ),
                ),
            },
        }
    }
}

/// Validated arguments for converting repo source files.
#[derive(Debug, Clone)]
pub struct ConvertArgs {
    /// Where the conversion reads from and writes to.
    pub locator: ConvertLocator,
    /// Leave comment lines out of the conversion.
    pub skip_comments: bool,
    /// Leave commented-out entries out of the conversion.
    pub skip_disabled: bool,
}

impl ConvertArgs {
    /// Validate the raw conversion arguments.
    pub fn from_cli(args: &cli::Convert) -> (r: Result<ConvertArgs, String>)
        ensures
            r matches Ok(c) ==> c.skip_comments == args.skip_comments && c.skip_disabled
                == args.skip_disabled,
            r is Ok <==> (match args.name {
                Some(_) => args.in_path is None && args.out_path is None && !(args.backup
                    && args.backup_to is Some),
                None => args.in_path is Some && args.out_path is Some,
            }),
            r matches Ok(c) ==> (match args.name {
                Some(n) => c.locator matches ConvertLocator::Name { name, backup } && name@ == n@
                    && (match (args.backup, args.backup_to) {
                    (true, None) => backup == Some(BackupMode::Backup),
                    (false, None) => backup is None,
                    (false, Some(p)) => backup matches Some(BackupMode::BackupTo { path })
                        && path@ == p@,
                    (true, Some(_)) => false,
                }),
                None => (match (args.in_path, args.out_path) {
                    (Some(s), Some(d)) => c.locator matches ConvertLocator::File { source, dest }
                        && source@ == s@ && dest@ == d@,
                    _ => false,
                }),
            }),
    {
        match ConvertLocator::from_cli(args) {
            Ok(locator) => Ok(
                ConvertArgs {
                    locator,
                    skip_comments: args.skip_comments,
                    skip_disabled: args.skip_disabled,
                },
            ),
            Err(e) => Err(e),
        }
    }

    /// The locations of the source and destination files.
    pub fn locator(&self) -> (r: &ConvertLocator)
        ensures
            r == &self.locator,
    {
        &self.locator
    }

    /// How to back up the original file, if at all.
    pub fn backup_mode(&self) -> (r: Option<&BackupMode>)
        ensures
            match self.locator {
                ConvertLocator::Name { backup: Some(b), .. } => r matches Some(rb) && *rb == b,
                _ => r is None,
            },
    {
        match &self.locator {
            ConvertLocator::Name { backup: Some(b), .. } => Some(b),
            _ => None,
        }
    }

    /// Skip transferring comment lines when converting.
    pub fn skip_comments(&self) -> (r: bool)
        ensures
            r == self.skip_comments,
    {
        self.skip_comments
    }

    /// Skip converting commented-out entries to disabled entries.
    pub fn skip_disabled(&self) -> (r: bool)
        ensures
            r == self.skip_disabled,
    {
        self.skip_disabled
    }
}

/// The keywords of a list of source types.
pub open spec fn kind_texts(ks: Seq<SourceType>) -> Seq<Seq<char>> {
    ks.map_values(|k: SourceType| keyword_spec(k))
}

/// The option map of a new entry built from its parameters: the base
/// options joined by the types, URIs, optional description, suites,
/// components, architectures, languages and the enabled flag.
pub open spec fn new_options_map(
    base: Map<OptionNameV, OptionValueV>,
    kinds: Seq<SourceType>,
    uris: Seq<Seq<char>>,
    description: Option<Seq<char>>,
    suites: Seq<Seq<char>>,
    components: Seq<Seq<char>>,
    arch: Seq<Seq<char>>,
    lang: Seq<Seq<char>>,
    disabled: bool,
) -> Map<OptionNameV, OptionValueV> {
    let m1 = spec_insert(
        base,
        OptionNameV::Known(KnownOptionName::Types),
        value_of_list(kind_texts(kinds)),
    );
    let m2 = spec_insert(m1, OptionNameV::Known(KnownOptionName::Uris), value_of_list(uris));
    let m3 = match description {
        Some(d) => spec_insert(
            m2,
            OptionNameV::Known(KnownOptionName::RepolibName),
            value_of_token(d),
        ),
        None => m2,
    };
    let m4 = spec_insert(m3, OptionNameV::Known(KnownOptionName::Suites), value_of_list(suites));
    let m5 = spec_insert(
        m4,
        OptionNameV::Known(KnownOptionName::Components),
        value_of_list(components),
    );
    let m6 = spec_insert(
        m5,
        OptionNameV::Known(KnownOptionName::Architectures),
        value_of_list(arch),
    );
    let m7 = spec_insert(m6, OptionNameV::Known(KnownOptionName::Languages), value_of_list(lang));
    spec_insert(m7, OptionNameV::Known(KnownOptionName::Enabled), OptionValueV::Bool(!disabled))
}

/// The view of an optional string.
pub open spec fn opt_str_view(s: Option<String>) -> Option<Seq<char>> {
    match s {
        Some(d) => Some(d@),
        None => None,
    }
}

/// Validated arguments for creating a new repo source entry from its
/// parameters.
#[derive(Debug, Clone)]
pub struct NewArgs {
    /// The name of the source entry.
    pub name: String,
    /// The source types to include.
    pub kinds: Vec<SourceType>,
    /// The validated repository URIs.
    pub uris: Vec<String>,
    /// A human-readable name for the entry.
    pub description: Option<String>,
    /// The repository suites.
    pub suites: Vec<String>,
    /// The repository components.
    pub components: Vec<String>,
    /// The architectures to include.
    pub arch: Vec<String>,
    /// The languages to include.
    pub lang: Vec<String>,
    /// Whether the entry is created disabled.
    pub disabled: bool,
    /// The custom options passed at the command line.
    pub options: OptionMap,
    /// The signing key parameters.
    pub key: KeyArgs,
    /// What to do if the source file already exists.
    pub action: OverwriteAction,
}

impl NewArgs {
    /// The full option map of the source entry these arguments
    /// describe.
    pub fn options(&self) -> (r: OptionMap)
        requires
            self.options.wf(),
        ensures
            r.wf(),
            r@ == new_options_map(
                self.options@,
                self.kinds@,
                self.uris.deep_view(),
                opt_str_view(self.description),
                self.suites.deep_view(),
                self.components.deep_view(),
                self.arch.deep_view(),
                self.lang.deep_view(),
                self.disabled,
            ),
    {
        let mut options = self.options.duplicate();
        let mut kind_strs: Vec<String> = Vec::new();
        let mut i: usize = 0;
        while i < self.kinds.len()
            invariant
                0 <= i <= self.kinds@.len(),
                kind_strs.deep_view() =~= kind_texts(self.kinds@.take(i as int)),
            decreases self.kinds@.len() - i,
        {
            let ghost before = kind_strs.deep_view();
            kind_strs.push(String::from_str(self.kinds[i].to_str()));
            proof {
                assert(kind_strs.deep_view() =~= before + seq![keyword_spec(self.kinds@[i as int])]);
                assert(kind_texts(self.kinds@.take(i + 1)) =~= kind_texts(
                    self.kinds@.take(i as int),
                ) + seq![keyword_spec(self.kinds@[i as int])]);
            }
            i = i + 1;
        }
        proof {
            assert(self.kinds@.take(self.kinds@.len() as int) =~= self.kinds@);
        }
        options.insert(
            OptionName::Known(KnownOptionName::Types),
            OptionValue::from_list(kind_strs),
        );
        options.insert(
            OptionName::Known(KnownOptionName::Uris),
            OptionValue::from_list(crate::options::dup_strings(&self.uris)),
        );
        match &self.description {
            Some(description) => {
                options.insert(
                    OptionName::Known(KnownOptionName::RepolibName),
                    OptionValue::from_string(description.clone()),
                );
            },
            None => {},
        }
        options.insert(
            OptionName::Known(KnownOptionName::Suites),
            OptionValue::from_list(crate::options::dup_strings(&self.suites)),
        );
        options.insert(
            OptionName::Known(KnownOptionName::Components),
            OptionValue::from_list(crate::options::dup_strings(&self.components)),
        );
        options.insert(
            OptionName::Known(KnownOptionName::Architectures),
            OptionValue::from_list(crate::options::dup_strings(&self.arch)),
        );
        options.insert(
            OptionName::Known(KnownOptionName::Languages),
            OptionValue::from_list(crate::options::dup_strings(&self.lang)),
        );
        options.insert(
            OptionName::Known(KnownOptionName::Enabled),
            OptionValue::from_bool(!self.disabled),
        );
        options
    }

    /// The parameters for the signing key.
    pub fn key(&self) -> (r: &KeyArgs)
        ensures
            r == &self.key,
    {
        &self.key
    }

    /// The name of the source entry.
    pub fn name(&self) -> (r: &str)
        ensures
            r@ == self.name@,
    {
        self.name.as_str()
    }

    /// The action to take if the source file already exists.
    pub fn action(&self) -> (r: OverwriteAction)
        ensures
            r == self.action,
    {
        self.action
    }
}

/// The option map of an entry added from a one-line directive: the
/// parsed directive, with the enabled flag forced and the optional
/// description added.
pub open spec fn add_options_map(
    line: Seq<char>,
    disabled: bool,
    description: Option<Seq<char>>,
) -> Map<OptionNameV, OptionValueV> {
    let m1 = spec_insert(
        line_map(line),
        OptionNameV::Known(KnownOptionName::Enabled),
        OptionValueV::Bool(!disabled),
    );
    match description {
        Some(d) => spec_insert(
            m1,
            OptionNameV::Known(KnownOptionName::RepolibName),
            value_of_token(d),
        ),
        None => m1,
    }
}

/// Validated arguments for creating a new repo source entry from a
/// one-line directive.
#[derive(Debug, Clone)]
pub struct AddArgs {
    /// The name of the source entry.
    pub name: String,
    /// The one-line-style source entry.
    pub line: String,
    /// A human-readable name for the entry.
    pub description: Option<String>,
    /// The signing key parameters.
    pub key: KeyArgs,
    /// Whether the entry is created disabled.
    pub disabled: bool,
    /// What to do if the source file already exists.
    pub action: OverwriteAction,
}

impl AddArgs {
    /// The full option map of the source entry these arguments
    /// describe: the parsed one-line directive, with the enabled flag
    /// and description applied.
    pub fn options(&self) -> (r: Result<OptionMap, Error>)
        ensures
            r is Ok <==> line_parses(self.line@),
            r matches Ok(m) ==> m.wf() && m@ == add_options_map(
                self.line@,
                self.disabled,
                opt_str_view(self.description),
            ),
            r matches Err(e) ==> e is MalformedOneLineEntry,
    {
        let mut options = match crate::parse::parse_line_entry(self.line.as_str()) {
            Ok(m) => m,
            Err(e) => {
                return Err(e);
            },
        };
        options.insert(
            OptionName::Known(KnownOptionName::Enabled),
            OptionValue::from_bool(!self.disabled),
        );
        match &self.description {
            Some(description) => {
                options.insert(
                    OptionName::Known(KnownOptionName::RepolibName),
                    OptionValue::from_string(description.clone()),
                );
            },
            None => {},
        }
        Ok(options)
    }

    /// The parameters for the signing key.
    pub fn key(&self) -> (r: &KeyArgs)
        ensures
            r == &self.key,
    {
        &self.key
    }

    /// The name of the source entry.
    pub fn name(&self) -> (r: &str)
        ensures
            r@ == self.name@,
    {
        self.name.as_str()
    }

    /// The action to take if the source file already exists.
    pub fn action(&self) -> (r: OverwriteAction)
        ensures
            r == self.action,
    {
        self.action
    }
}

} // verus!
