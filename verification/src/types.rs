//! The kind of package source a repository entry declares.

use vstd::prelude::*;

use crate::error::Error;

verus! {

use vstd::string::StringExecFns;

/// The kind of packages a source provides.
#[derive(Debug, Clone, Copy, PartialEq, Eq, Structural)]
pub enum SourceType {
    /// A binary package source.
    Deb,
    /// A source package source.
    DebSrc,
}

/// The one-line-syntax keyword of a source type.
pub open spec fn keyword_spec(t: SourceType) -> Seq<char> {
    match t {
        SourceType::Deb => "deb"@,
        SourceType::DebSrc => "deb-src"@,
    }
}

/// The source type a one-line-syntax keyword stands for, if any.
pub open spec fn source_type_of(s: Seq<char>) -> Option<SourceType> {
    if s == "deb"@ {
        Some(SourceType::Deb)
    } else if s == "deb-src"@ {
        Some(SourceType::DebSrc)
    } else {
        None
    }
}

impl SourceType {
    /// The keyword of this source type in the one-line syntax.
    pub fn to_str(&self) -> (r: &'static str)
        ensures
            r@ == keyword_spec(*self),
    {
        match self {
            SourceType::Deb => "deb",
            SourceType::DebSrc => "deb-src",
        }
    }

    /// Parse a one-line-syntax source type keyword.
    pub fn from_str(s: &str) -> (r: Result<SourceType, Error>)
        ensures
            r is Ok <==> source_type_of(s@) is Some,
            r matches Ok(t) ==> source_type_of(s@) == Some(t),
            r matches Err(e) ==> (e matches Error::MalformedOneLineEntry { reason } && reason@
                == "The entry must start with `deb` or `deb-src`."@),
    {
        if crate::text::str_eq(s, "deb") {
            Ok(SourceType::Deb)
        } else if crate::text::str_eq(s, "deb-src") {
            Ok(SourceType::DebSrc)
        } else {
            Err(
                Error::MalformedOneLineEntry {
                    reason: String::from_str("The entry must start with `deb` or `deb-src`."),
                },
            )
        }
    }
}

} // verus!
