//! The location of a repo source file: either installed under a sources
//! directory by name, or an arbitrary path, in one of the two on-disk
//! formats.

use vstd::prelude::*;

verus! {

use vstd::string::StringExecFns;

/// The path of a repo source file.
#[derive(Debug, Clone, PartialEq, Eq)]
pub enum SourceFilePath {
    /// A source file installed in the sources directory.
    Installed { dir: String, name: String },
    /// A source file at an arbitrary file path.
    File { path: String },
}

/// A kind of repo source file.
#[derive(Debug, Clone, Copy, PartialEq, Eq, Structural)]
pub enum SourceFileKind {
    /// A one-line-style source file.
    OneLine,
    /// A deb822-style source file.
    Deb822,
}

/// A repo source file.
#[derive(Debug, Clone, PartialEq, Eq)]
pub struct SourceFile {
    pub path: SourceFilePath,
    pub kind: SourceFileKind,
}

/// The file extension of each source file kind.
pub open spec fn ext_spec(k: SourceFileKind) -> Seq<char> {
    match k {
        SourceFileKind::OneLine => "list"@,
        SourceFileKind::Deb822 => "sources"@,
    }
}

/// The full path of a source file: an installed file resolves to
/// `<dir>/<name>.<extension>`, an explicit path stands as it is.
pub open spec fn file_path_spec(f: SourceFile) -> Seq<char> {
    match f.path {
        SourceFilePath::Installed { dir, name } => dir@ + seq!['/'] + name@ + seq!['.'] + ext_spec(
            f.kind,
        ),
        SourceFilePath::File { path } => path@,
    }
}

impl SourceFile {
    /// The file extension of this source file.
    pub fn extension(&self) -> (r: &'static str)
        ensures
            r@ == ext_spec(self.kind),
    {
        match self.kind {
            SourceFileKind::OneLine => "list",
            SourceFileKind::Deb822 => "sources",
        }
    }

    /// The path of this source file.
    pub fn path(&self) -> (r: String)
        ensures
            r@ == file_path_spec(*self),
    {
        match &self.path {
            SourceFilePath::Installed { dir, name } => {
                let mut out = dir.clone();
                out.append("/");
                out.append(name.as_str());
                out.append(".");
                out.append(self.extension());
                proof {
                    reveal_strlit("/");
                    reveal_strlit(".");
                    assert("/"@ =~= seq!['/']);
                    assert("."@ =~= seq!['.']);
                }
                out
            },
            SourceFilePath::File { path } => path.clone(),
        }
    }
}

} // verus!
