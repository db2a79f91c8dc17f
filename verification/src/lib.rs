//! A lexical scanner for a small PL/0-style procedural language.
//!
//! The scanner turns a sequence of source characters into a list of
//! classified tokens with precise 1-based line/column positions, interning
//! identifier spellings into a deduplicated symbol table along the way.
//! Scanning is total: malformed runs become explicit `Error` tokens, the
//! output always ends with a single end-of-input token, and every public
//! function carries a contract relating its result to the specification-level
//! state machine in `scan`.

pub mod chars;
pub mod lang;
pub mod lexer;
pub mod props;
pub mod scan;
pub mod symbols;
