//! Data types for PGP key handling, and the parser for the
//! machine-readable colon output of the PGP tool.

use vstd::prelude::*;

use crate::text::lines_spec;
use crate::text::split_char_from;

verus! {

/// The encoding of a PGP key.
#[derive(Debug, Clone, Copy, PartialEq, Eq, Structural)]
pub enum KeyEncoding {
    Armored,
    Binary,
}

/// A PGP key, as raw bytes.
#[derive(Debug, Clone, PartialEq, Eq)]
pub struct Key {
    bytes: Vec<u8>,
}

impl View for Key {
    type V = Seq<u8>;

    closed spec fn view(&self) -> Seq<u8> {
        self.bytes@
    }
}

impl Key {
    /// A key from its raw bytes.
    pub fn new(bytes: Vec<u8>) -> (r: Key)
        ensures
            r@ == bytes@,
    {
        Key { bytes }
    }

    /// The raw bytes of the key.
    pub fn bytes(&self) -> (r: &Vec<u8>)
        ensures
            r@ == self@,
    {
        &self.bytes
    }
}

/// The ID of a PGP key.
#[derive(Debug, Clone, PartialEq, Eq)]
pub struct KeyId {
    id: String,
}

impl View for KeyId {
    type V = Seq<char>;

    closed spec fn view(&self) -> Seq<char> {
        self.id@
    }
}

impl KeyId {
    /// A key ID from its text.
    pub fn new(id: String) -> (r: KeyId)
        ensures
            r@ == id@,
    {
        KeyId { id }
    }

    /// The text of the key ID.
    pub fn as_str(&self) -> (r: &str)
        ensures
            r@ == self@,
    {
        self.id.as_str()
    }
}

/// The rows of the machine-readable colon output: one row per line,
/// each split at every colon.
pub open spec fn colon_rows(s: Seq<char>) -> Seq<Seq<Seq<char>>> {
    lines_spec(s).map_values(|l: Seq<char>| split_char_from(l, ':', 0))
}

/// The key ID of the first public-key record among the rows: the
/// fifth field of the first row whose first field is `pub`, if that
/// row has one.
pub open spec fn pub_key_id_from(rows: Seq<Seq<Seq<char>>>, i: int) -> Option<Seq<char>>
    decreases rows.len() - i,
{
    if i < 0 || i >= rows.len() {
        None
    } else if rows[i].len() > 0 && rows[i][0] == "pub"@ {
        if rows[i].len() > 4 {
            Some(rows[i][4])
        } else {
            None
        }
    } else {
        pub_key_id_from(rows, i + 1)
    }
}

/// The machine-readable colon output of a PGP tool command.
#[derive(Debug, Clone, PartialEq, Eq)]
pub struct ColonOutput {
    lines: Vec<Vec<String>>,
}

impl View for ColonOutput {
    type V = Seq<Seq<Seq<char>>>;

    closed spec fn view(&self) -> Seq<Seq<Seq<char>>> {
        self.lines.deep_view()
    }
}

impl ColonOutput {
    /// Parse a command's output into its colon-separated rows.
    #[verifier::loop_isolation(false)]
    pub fn new(output: &str) -> (r: ColonOutput)
        ensures
            r@ == colon_rows(output@),
    {
        let raw_lines = crate::text::split_lines(output);
        let ghost ldv = lines_spec(output@);
        let mut lines: Vec<Vec<String>> = Vec::new();
        let mut i: usize = 0;
        while i < raw_lines.len()
            invariant
                0 <= i <= raw_lines@.len(),
                lines.deep_view() =~= colon_rows(output@).take(i as int),
            decreases raw_lines@.len() - i,
        {
            let ghost before = lines.deep_view();
            let row = crate::text::split_on(raw_lines[i].as_str(), ':');
            lines.push(row);
            proof {
                assert(lines.deep_view() =~= before + seq![
                    split_char_from(ldv[i as int], ':', 0),
                ]);
                assert(lines.deep_view() =~= colon_rows(output@).take(i + 1));
            }
            i = i + 1;
        }
        proof {
            assert(colon_rows(output@).take(raw_lines@.len() as int) =~= colon_rows(output@));
        }
        ColonOutput { lines }
    }

    /// The key ID of the public key, if the output holds a public-key
    /// record carrying one.
    #[verifier::loop_isolation(false)]
    pub fn public_key_id(&self) -> (r: Option<KeyId>)
        ensures
            match r {
                Some(k) => pub_key_id_from(self@, 0) == Some(k@),
                None => pub_key_id_from(self@, 0) is None,
            },
    {
        let mut i: usize = 0;
        while i < self.lines.len()
            invariant
                0 <= i <= self.lines@.len(),
                pub_key_id_from(self@, 0) == pub_key_id_from(self@, i as int),
            decreases self.lines@.len() - i,
        {
            let row = &self.lines[i];
            proof {
                assert(self@[i as int] == self.lines@[i as int].deep_view());
            }
            if row.len() > 0 && crate::text::str_eq(row[0].as_str(), "pub") {
                if row.len() > 4 {
                    return Some(KeyId::new(row[4].clone()));
                } else {
                    return None;
                }
            }
            i = i + 1;
        }
        None
    }
}

} // verus!
