//! Parser for a schema language that describes an EBML-style element catalogue.
//!
//! Every parser works on a complete input buffer and a start position, and
//! returns the parsed value with the position just after it, or `None`.
//! Each one is proved equal to a spec function that states its grammar.

pub mod lexer;
pub mod bytes;
pub mod numbers;
pub mod element_id;
pub mod date;
pub mod constraints;
pub mod properties;
pub mod decl;
pub mod header;
pub mod laws;
