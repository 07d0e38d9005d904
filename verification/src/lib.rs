//! Tokenizer for configurable delimited-value text.
//!
//! A document is split into lines, and each line is tokenized into string
//! fields by a character-driven state machine. The format is parameterized by
//! three characters: a value delimiter that opens and closes a field, a value
//! separator that joins consecutive fields, and an escape character that makes
//! the next character inside a field literal.

pub mod error;
pub mod format;
pub mod parser;
pub mod splitter;
pub mod text;
pub mod tokenizer;
