//! The command-line surface, as plain data.
//!
//! These structures mirror the flags and arguments of the tool; the
//! binary fills them from its argument parser and hands them to the
//! validated argument types.

use vstd::prelude::*;

use crate::types::SourceType;

verus! {

/// Arguments naming where the signing key comes from.
#[derive(Debug, Clone)]
pub struct KeySourceArgs {
    /// The URL, file path or fingerprint of the public signing key.
    pub key: Option<String>,
    /// Do not install a signing key at all.
    pub force_no_key: bool,
}

/// Arguments naming where the signing key is installed to.
#[derive(Debug, Clone)]
pub struct KeyDestinationArgs {
    /// The path to install the repository signing key to.
    pub key_path: Option<String>,
    /// Inline the signing key into the source entry instead.
    pub inline_key: bool,
}

/// All signing-key arguments together.
#[derive(Debug, Clone)]
pub struct SigningKeyArgs {
    pub location: KeySourceArgs,
    /// Download the signing key from this keyserver.
    pub keyserver: Option<String>,
    pub destination: KeyDestinationArgs,
}

/// A human-readable name for the source entry.
#[derive(Debug, Clone)]
pub struct DescriptionArgs {
    pub description: Option<String>,
}

/// Whether the source entry is created disabled.
#[derive(Debug, Clone)]
pub struct DisabledArgs {
    pub disabled: bool,
}

/// What to do when the target source file already exists.
#[derive(Debug, Clone)]
pub struct OverwriteArgs {
    /// Overwrite the source file if it already exists.
    pub overwrite: bool,
    /// Append a new entry to the source file if it already exists.
    pub append: bool,
}

impl OverwriteArgs {
    /// The overwrite action for these args; overwriting takes
    /// precedence over appending, and neither flag means failing.
    pub fn action(&self) -> (r: crate::entry::OverwriteAction)
        ensures
            self.overwrite ==> r == crate::entry::OverwriteAction::Overwrite,
            !self.overwrite && self.append ==> r == crate::entry::OverwriteAction::Append,
            !self.overwrite && !self.append ==> r == crate::entry::OverwriteAction::Fail,
    {
        if self.overwrite {
            crate::entry::OverwriteAction::Overwrite
        } else if self.append {
            crate::entry::OverwriteAction::Append
        } else {
            crate::entry::OverwriteAction::Fail
        }
    }
}

/// Arguments for creating a new source entry from its parameters.
#[derive(Debug, Clone)]
pub struct New {
    /// The name of the source file.
    pub name: String,
    /// The URIs of the repository.
    pub uri: Vec<String>,
    pub description: DescriptionArgs,
    /// The repository suites (defaults to the distro version codename).
    pub suite: Vec<String>,
    /// The repository components.
    pub component: Vec<String>,
    /// The source types to include.
    pub kind: Vec<SourceType>,
    pub key: SigningKeyArgs,
    /// The architectures to include.
    pub arch: Vec<String>,
    /// The languages to include.
    pub lang: Vec<String>,
    /// Additional options in `key=value` form.
    pub option: Vec<String>,
    /// Accept option names that are not recognized, literally.
    pub force_literal_options: bool,
    pub disabled: DisabledArgs,
    pub overwrite: OverwriteArgs,
}

/// Arguments for creating a new source entry from a one-line directive.
#[derive(Debug, Clone)]
pub struct Add {
    /// The one-line-style source entry.
    pub line: String,
    /// The name of the source file.
    pub name: String,
    pub description: DescriptionArgs,
    pub key: SigningKeyArgs,
    pub disabled: DisabledArgs,
    pub overwrite: OverwriteArgs,
}

/// Arguments for converting a one-line-style file to the deb822 format.
#[derive(Debug, Clone)]
pub struct Convert {
    /// The name of the installed source file to convert in place.
    pub name: Option<String>,
    /// The path of the one-line-style file to convert, `-` for stdin.
    pub in_path: Option<String>,
    /// The path of the deb822 file to generate, `-` for stdout.
    pub out_path: Option<String>,
    /// Back up the original file to `<name>.list.bak` first.
    pub backup: bool,
    /// Back up the original file to this path first.
    pub backup_to: Option<String>,
    /// Leave comment lines out of the conversion.
    pub skip_comments: bool,
    /// Leave commented-out entries out of the conversion.
    pub skip_disabled: bool,
}

/// Placeholder group for conversion destination flags.
#[derive(Debug, Clone)]
pub struct ConvertDestArgs {}

/// Placeholder group for backup flags.
#[derive(Debug, Clone)]
pub struct BackupArgs {}

/// The subcommands of the tool.
#[derive(Debug, Clone)]
pub enum Commands {
    /// Add a new source entry by specifying its parameters.
    New(New),
    /// Add a new source entry using the one-line syntax.
    Add(Add),
    /// Convert a one-line-style `.list` file to a deb822 `.sources` file.
    Convert(Convert),
}

/// The whole command line.
#[derive(Debug, Clone)]
pub struct Cli {
    /// Do nothing; only report what would have happened.
    pub dry_run: bool,
    /// The name or path of the GnuPG binary.
    pub gpg_path: String,
    /// The directory installed source files live in.
    pub sources_dir: String,
    pub command: Commands,
}

} // verus!
