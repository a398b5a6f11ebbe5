//! A scanner for a small scripting language: source text in, an ordered
//! sequence of typed tokens and a list of line-tagged diagnostics out.
//!
//! - [`lexeme`] states the lexical grammar as mathematics: where a lexeme
//!   ends, what it amounts to, and the tokens and diagnostics of a text.
//! - [`scanner`] holds the [`Scanner`], a cursor over the text with the state
//!   machine that drives it, proved to compute what [`lexeme`] states.
//! - [`token`] holds the tokens and the keyword table, [`diagnostics`] the
//!   error kinds and the sink that collects what is reported.
//! - [`chars`], [`numeral`] and [`text`] hold what the others stand on:
//!   character classes and runs, decimal numerals, and conversions.
//! - [`laws`] holds what is proved of every scan.
//!
//! Scanning never fails and never stops early: a malformed lexeme is reported
//! to the sink, and the scan goes on behind it.

pub mod chars;
pub mod diagnostics;
pub mod laws;
pub mod lexeme;
pub mod numeral;
pub mod scanner;
pub mod text;
pub mod token;

pub use diagnostics::{Diagnostic, Lox, ScanError};
pub use scanner::{scan, Scanner};
pub use token::{Literal, Token, TokenType};
