//! Conversion of a legacy one-line-style source file to the deb822
//! stanza format: the converter's plan and the exact bytes of the
//! converted file.

use vstd::prelude::*;

use crate::entry::sep_text;
use crate::entry::stanza_of;
use crate::file::SourceFile;
use crate::file::SourceFileKind;
use crate::file::SourceFilePath;
use crate::file::file_path_spec;
use crate::parse::ConvertedLineEntry;
use crate::parse::ConvertedLineV;
use crate::parse::cle_wf;
use crate::parse::cles_view;

verus! {

use vstd::string::StringExecFns;

/// How to back up the original file when converting a source file.
#[derive(Debug, Clone, PartialEq, Eq)]
pub enum BackupMode {
    /// Back up beside the original, with the backup suffix appended.
    Backup,
    /// Back up to an explicit path.
    BackupTo { path: String },
}

impl BackupMode {
    /// The backup mode these conversion arguments ask for.  The
    /// default-path flag takes precedence over an explicit path.
    pub fn from_args(args: &crate::cli::Convert) -> (r: Option<BackupMode>)
        ensures
            args.backup ==> r == Some(BackupMode::Backup),
            !args.backup ==> match (r, args.backup_to) {
                (Some(BackupMode::BackupTo { path: p }), Some(q)) => p@ == q@,
                (None, None) => true,
                _ => false,
            },
    {
        if args.backup {
            Some(BackupMode::Backup)
        } else {
            match &args.backup_to {
                Some(path) => Some(BackupMode::BackupTo { path: path.clone() }),
                None => None,
            }
        }
    }
}

/// A stream to read a source file from or write a source file to.
#[derive(Debug, Clone)]
pub enum IoStream {
    File(SourceFile),
    Stdio,
}

/// A plan for backing up a file.
#[derive(Debug, Clone, PartialEq, Eq)]
pub struct BackupPlan {
    /// The original file path.
    pub original: String,
    /// The path to back it up to.
    pub backup: String,
}

/// A plan for what converting a source file will do, for reporting
/// before any file is touched.
#[derive(Debug, Clone, PartialEq, Eq)]
pub struct ConvertPlan {
    /// The path the original will be backed up to, if any.
    pub backed_up: Option<String>,
    /// The path of the converted file that will be created, if the
    /// destination is a file.
    pub created: Option<String>,
    /// The path of the original that will be removed, if converting an
    /// installed source file in place.
    pub removed: Option<String>,
}

impl crate::cli::Convert {
    /// The input stream of the conversion: the installed `.list` file
    /// when a name is given, else the explicit input path, with `-`
    /// meaning stdin.
    pub fn in_file(&self, sources_dir: &str) -> (r: Result<IoStream, String>)
        ensures
            match self.name {
                Some(n) => r matches Ok(IoStream::File(f)) && f.kind == SourceFileKind::OneLine
                    && (f.path matches SourceFilePath::Installed { dir, name } && dir@
                    == sources_dir@ && name@ == n@),
                None => match self.in_path {
                    Some(p) => if p@ == "-"@ {
                        r matches Ok(IoStream::Stdio)
                    } else {
                        r matches Ok(IoStream::File(f)) && f.kind == SourceFileKind::OneLine && (
                        f.path matches SourceFilePath::File { path } && path@ == p@)
                    },
                    None => r is Err,
                },
            },
    {
        match &self.name {
            Some(name) => Ok(
                IoStream::File(
                    SourceFile {
                        path: SourceFilePath::Installed {
                            dir: String::from_str(sources_dir),
                            name: name.clone(),
                        },
                        kind: SourceFileKind::OneLine,
                    },
                ),
            ),
            None => match &self.in_path {
                Some(path) => {
                    if crate::stdio::path_is_stdio(path.as_str()) {
                        Ok(IoStream::Stdio)
                    } else {
                        Ok(
                            IoStream::File(
                                SourceFile {
                                    path: SourceFilePath::File { path: path.clone() },
                                    kind: SourceFileKind::OneLine,
                                },
                            ),
                        )
                    }
                },
                None => Err(String::from_str("unable to parse CLI arguments")),
            },
        }
    }

    /// The output stream of the conversion: the installed `.sources`
    /// file when a name is given, else the explicit output path, with
    /// `-` meaning stdout.
    pub fn out_file(&self, sources_dir: &str) -> (r: Result<IoStream, String>)
        ensures
            match self.name {
                Some(n) => r matches Ok(IoStream::File(f)) && f.kind == SourceFileKind::Deb822 && (
                f.path matches SourceFilePath::Installed { dir, name } && dir@ == sources_dir@
                    && name@ == n@),
                None => match self.out_path {
                    Some(p) => if p@ == "-"@ {
                        r matches Ok(IoStream::Stdio)
                    } else {
                        r matches Ok(IoStream::File(f)) && f.kind == SourceFileKind::Deb822 && (
                        f.path matches SourceFilePath::File { path } && path@ == p@)
                    },
                    None => r is Err,
                },
            },
    {
        match &self.name {
            Some(name) => Ok(
                IoStream::File(
                    SourceFile {
                        path: SourceFilePath::Installed {
                            dir: String::from_str(sources_dir),
                            name: name.clone(),
                        },
                        kind: SourceFileKind::Deb822,
                    },
                ),
            ),
            None => match &self.out_path {
                Some(path) => {
                    if crate::stdio::path_is_stdio(path.as_str()) {
                        Ok(IoStream::Stdio)
                    } else {
                        Ok(
                            IoStream::File(
                                SourceFile {
                                    path: SourceFilePath::File { path: path.clone() },
                                    kind: SourceFileKind::Deb822,
                                },
                            ),
                        )
                    }
                },
                None => Err(String::from_str("unable to parse CLI arguments")),
            },
        }
    }
}

/// A converter for turning a repo source file from the one-line syntax
/// into the deb822 syntax.
#[derive(Debug, Clone)]
pub struct EntryConverter {
    /// The converted lines, in input order.
    pub entries: Vec<ConvertedLineEntry>,
    /// How to back up the original file, if at all.
    pub backup_mode: Option<BackupMode>,
    /// Where the original is read from.
    pub in_file: IoStream,
    /// Where the converted file is written to.
    pub out_file: IoStream,
}

/// The backup a converter will make: the original path paired with the
/// backup path.  No backup happens when reading from stdin or when no
/// backup was requested.
pub open spec fn backup_plan_spec(c: EntryConverter) -> Option<(Seq<char>, Seq<char>)> {
    match c.in_file {
        IoStream::File(f) => match c.backup_mode {
            Some(BackupMode::Backup) => Some(
                (file_path_spec(f), file_path_spec(f) + ".bak"@),
            ),
            Some(BackupMode::BackupTo { path }) => Some((file_path_spec(f), path@)),
            None => None,
        },
        IoStream::Stdio => None,
    }
}

/// The path a conversion removes, if any: the original file, only when
/// converting an installed source file in place.
pub open spec fn removed_path_spec(c: EntryConverter) -> Option<Seq<char>> {
    match c.in_file {
        IoStream::File(f) => match f.path {
            SourceFilePath::Installed { dir, name } => Some(file_path_spec(f)),
            SourceFilePath::File { .. } => None,
        },
        IoStream::Stdio => None,
    }
}

/// The converted text grown by one converted line: an entry is
/// appended as a stanza with the separator rule of the append policy,
/// followed by a blank line unless it is the last line; a comment is
/// appended as a `# ` line.
pub open spec fn convert_step(c: Seq<char>, e: ConvertedLineV, last: bool) -> Seq<char> {
    match e {
        ConvertedLineV::Entry(m) => {
            let c2 = c + sep_text(c) + stanza_of(m);
            if last {
                c2
            } else {
                c2 + seq!['\n']
            }
        },
        ConvertedLineV::Comment(t) => c + "# "@ + t + seq!['\n'],
    }
}

/// The converted text of the lines from index `i` on, starting from
/// the text `c`.
pub open spec fn convert_text_from(c: Seq<char>, entries: Seq<ConvertedLineV>, i: int) -> Seq<char>
    decreases entries.len() - i,
{
    if i < 0 || i >= entries.len() {
        c
    } else {
        convert_text_from(convert_step(c, entries[i], i == entries.len() - 1), entries, i + 1)
    }
}

impl EntryConverter {
    /// Every converted entry carries a well-formed option map.
    pub open spec fn wf(&self) -> bool {
        forall|i: int| 0 <= i < self.entries@.len() ==> cle_wf(#[trigger] self.entries@[i])
    }

    /// The suffix appended to the original file's name for the default
    /// backup path.
    pub fn backup_suffix() -> (r: &'static str)
        ensures
            r@ == ".bak"@,
    {
        ".bak"
    }

    /// The plan for backing up the original source file.
    ///
    /// `None` means no backup is necessary.
    pub fn backup_plan(&self) -> (r: Option<BackupPlan>)
        ensures
            match r {
                Some(bp) => backup_plan_spec(*self) matches Some(sp) && bp.original@ == sp.0
                    && bp.backup@ == sp.1,
                None => backup_plan_spec(*self) is None,
            },
    {
        match &self.in_file {
            IoStream::File(source_file) => match &self.backup_mode {
                Some(BackupMode::Backup) => {
                    let original = source_file.path();
                    let mut backup = source_file.path();
                    backup.append(Self::backup_suffix());
                    Some(BackupPlan { original, backup })
                },
                Some(BackupMode::BackupTo { path }) => Some(
                    BackupPlan { original: source_file.path(), backup: path.clone() },
                ),
                None => None,
            },
            IoStream::Stdio => None,
        }
    }

    /// The plan for what converting will do: what is backed up, what
    /// is created, and what is removed.
    pub fn plan(&self) -> (r: ConvertPlan)
        ensures
            match r.backed_up {
                Some(b) => backup_plan_spec(*self) matches Some(sp) && b@ == sp.1,
                None => backup_plan_spec(*self) is None,
            },
            match r.created {
                Some(c) => self.out_file matches IoStream::File(f) && c@ == file_path_spec(f),
                None => self.out_file is Stdio,
            },
            match r.removed {
                Some(p) => removed_path_spec(*self) == Some(p@),
                None => removed_path_spec(*self) is None,
            },
    {
        let backed_up = match self.backup_plan() {
            Some(plan) => Some(plan.backup),
            None => None,
        };
        let created = match &self.out_file {
            IoStream::File(source_file) => Some(source_file.path()),
            IoStream::Stdio => None,
        };
        let removed = match &self.in_file {
            IoStream::File(source_file) => match &source_file.path {
                SourceFilePath::Installed { .. } => Some(source_file.path()),
                SourceFilePath::File { .. } => None,
            },
            IoStream::Stdio => None,
        };
        ConvertPlan { backed_up, created, removed }
    }

    /// The full text of the converted file: the converted lines in
    /// input order, entries as stanzas separated by exactly one blank
    /// line, comments as `# ` lines.
    #[verifier::loop_isolation(false)]
    pub fn convert_output(&self) -> (r: String)
        requires
            self.wf(),
        ensures
            r@ == convert_text_from(seq![], cles_view(self.entries@), 0),
    {
        let ghost ev = cles_view(self.entries@);
        let mut out = String::new();
        proof {
            reveal_strlit("# ");
            reveal_strlit("\n");
            assert("\n"@ =~= seq!['\n']);
        }
        let mut i: usize = 0;
        while i < self.entries.len()
            invariant
                0 <= i <= self.entries@.len(),
                convert_text_from(seq![], ev, 0) == convert_text_from(out@, ev, i as int),
            decreases self.entries@.len() - i,
        {
            let ghost old_out = out@;
            match &self.entries[i] {
                ConvertedLineEntry::Entry(map) => {
                    proof {
                        assert(cle_wf(self.entries@[i as int]));
                    }
                    let stanza = crate::entry::render_options(map);
                    if crate::entry::content_needs_sep(out.as_str()) {
                        out.append("\n");
                    }
                    out.append(stanza.as_str());
                    if i + 1 < self.entries.len() {
                        out.append("\n");
                        proof {
                            assert(out@ =~= old_out + sep_text(old_out) + stanza@ + seq!['\n']);
                        }
                    } else {
                        proof {
                            assert(out@ =~= old_out + sep_text(old_out) + stanza@);
                        }
                    }
                    proof {
                        assert(ev[i as int] == ConvertedLineV::Entry(map@));
                        assert(out@ == convert_step(old_out, ev[i as int], i == ev.len() - 1));
                    }
                },
                ConvertedLineEntry::Comment(comment) => {
                    out.append("# ");
                    out.append(comment.as_str());
                    out.append("\n");
                    proof {
                        assert(ev[i as int] == ConvertedLineV::Comment(comment@));
                        assert(out@ =~= old_out + "# "@ + comment@ + seq!['\n']);
                    }
                },
            }
            i = i + 1;
        }
        out
    }
}

} // verus!
