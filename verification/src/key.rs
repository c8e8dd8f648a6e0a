//! Data types for repository signing keys: where a key comes from,
//! where it is installed to, and the resolved key a source entry
//! carries.

use vstd::prelude::*;

use crate::options::OptionValue;
use crate::options::OptionValueV;
use crate::options::value_of_token;
use crate::text::lines_spec;

verus! {

/// The location to install a signing key to.
#[derive(Debug, Clone, PartialEq, Eq)]
pub enum KeyDest {
    /// Inline it into the source entry.
    Inline,
    /// Install it to a separate file.
    File { path: String },
}

/// The mathematical view of a key destination.
pub enum KeyDestV {
    Inline,
    File(Seq<char>),
}

impl View for KeyDest {
    type V = KeyDestV;

    open spec fn view(&self) -> KeyDestV {
        match self {
            KeyDest::Inline => KeyDestV::Inline,
            KeyDest::File { path } => KeyDestV::File(path@),
        }
    }
}

/// A location to acquire a signing key from.
#[derive(Debug, Clone, PartialEq, Eq)]
pub enum KeySource {
    /// Download the key from a URL.
    Download { url: String },
    /// Copy the key from a local file.
    File { path: String },
    /// Fetch the key from a keyserver by its fingerprint.
    Keyserver { id: String, keyserver: String },
}

/// The mathematical view of a key source.
pub enum KeySourceV {
    Download(Seq<char>),
    File(Seq<char>),
    Keyserver(Seq<char>, Seq<char>),
}

impl View for KeySource {
    type V = KeySourceV;

    open spec fn view(&self) -> KeySourceV {
        match self {
            KeySource::Download { url } => KeySourceV::Download(url@),
            KeySource::File { path } => KeySourceV::File(path@),
            KeySource::Keyserver { id, keyserver } => KeySourceV::Keyserver(id@, keyserver@),
        }
    }
}

/// A resolved repository signing key, ready to be recorded in a source
/// entry under the reserved `Signed-By` name.
#[derive(Debug, Clone, PartialEq, Eq)]
pub enum SigningKey {
    /// The key is stored in a separate file.
    File { path: String },
    /// The key is inlined into the source entry.
    Inline { value: OptionValue },
}

/// The mathematical view of a signing key.
pub enum SigningKeyV {
    File(Seq<char>),
    Inline(OptionValueV),
}

impl View for SigningKey {
    type V = SigningKeyV;

    open spec fn view(&self) -> SigningKeyV {
        match self {
            SigningKey::File { path } => SigningKeyV::File(path@),
            SigningKey::Inline { value } => SigningKeyV::Inline(value@),
        }
    }
}

/// The view of an optional key source.
pub open spec fn key_source_opt_view(k: Option<KeySource>) -> Option<KeySourceV> {
    match k {
        Some(s) => Some(s@),
        None => None,
    }
}

/// An owned copy of a key source.
pub fn dup_key_source(k: &KeySource) -> (r: KeySource)
    ensures
        r@ == k@,
{
    match k {
        KeySource::Download { url } => KeySource::Download { url: url.clone() },
        KeySource::File { path } => KeySource::File { path: path.clone() },
        KeySource::Keyserver { id, keyserver } => KeySource::Keyserver {
            id: id.clone(),
            keyserver: keyserver.clone(),
        },
    }
}

/// An owned copy of an optional key source.
pub fn dup_opt_key_source(k: &Option<KeySource>) -> (r: Option<KeySource>)
    ensures
        key_source_opt_view(r) == key_source_opt_view(*k),
{
    match k {
        Some(s) => Some(dup_key_source(s)),
        None => None,
    }
}

/// The option value a signing key is recorded as.
pub open spec fn signing_key_value(k: SigningKeyV) -> OptionValueV {
    match k {
        SigningKeyV::File(path) => value_of_token(path),
        SigningKeyV::Inline(v) => v,
    }
}

/// The option value for a signing key inlined from its armored text:
/// a multiline block holding the lines of the armored key.
pub fn inline_key_value(armored: &str) -> (r: OptionValue)
    ensures
        r@ == OptionValueV::Multiline(lines_spec(armored@)),
{
    OptionValue::Multiline(crate::text::split_lines(armored))
}

} // verus!
