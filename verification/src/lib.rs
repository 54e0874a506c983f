//! A lexical analyzer for a small language whose keywords are
//! transliterated Urdu words (`hindsa` = int, `agar` = if, ...).
//!
//! The scanner turns a source string into a flat sequence of classified
//! tokens in one left-to-right pass with one character of lookahead.
//! It never fails: characters outside the language become `Unknown`
//! tokens, so every input string yields a token sequence.

pub mod laws;
pub mod lexer;
pub mod scanning;
pub mod token;
