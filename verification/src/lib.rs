//! A library for building, parsing, serializing and installing APT-style
//! repository source declarations.
//!
//! The core is a typed option map with a fixed canonical serialization
//! order, a parser for the legacy one-line directive syntax, a stanza
//! serializer for the modern deb822-style format, and the pure decision
//! logic of the install/convert state machines.

pub mod args;
pub mod cli;
pub mod codename;
pub mod convert;
pub mod entry;
pub mod error;
pub mod file;
pub mod key;
pub mod options;
pub mod pgp;
pub mod parse;
pub mod stdio;
pub mod text;
pub mod types;
