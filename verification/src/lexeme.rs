//! The lexical grammar as mathematics: where the lexeme that begins at a
//! position ends, what it is, and the tokens and diagnostics that a text
//! scans to.

use vstd::prelude::*;
use crate::chars::{
    digits_len, is_alpha, is_digit, lemma_run_len, len_until, newlines, word_len, Class,
};
use crate::diagnostics::{DiagnosticView, ScanError};
use crate::numeral::decimal_value;
use crate::token::{keyword_kind, LiteralView, TokenType, TokenView};

verus! {

/// What a lexeme amounts to.
pub enum Lexeme {
    /// It makes a token of this kind, with this payload.
    Token { kind: TokenType, literal: LiteralView },
    /// White space, a newline or a comment: it makes nothing.
    Blank,
    /// It is malformed, and is reported.
    Fault { error: ScanError },
}

/// The character after the one at `pos` is `c`.
pub open spec fn followed_by(src: Seq<char>, pos: int, c: char) -> bool {
    pos + 1 < src.len() && src[pos + 1] == c
}

/// A fraction begins at `at`: a dot with a digit right after it.
pub open spec fn fraction_at(src: Seq<char>, at: int) -> bool {
    0 <= at && at + 1 < src.len() && src[at] == '.' && is_digit(src[at + 1])
}

/// The kind of the token that the character `c` makes by itself, for the
/// punctuation characters that are never part of a longer lexeme.
pub open spec fn punctuation(c: char) -> Option<TokenType> {
    if c == '(' {
        Some(TokenType::LeftParen)
    } else if c == ')' {
        Some(TokenType::RightParen)
    } else if c == '{' {
        Some(TokenType::LeftBrace)
    } else if c == '}' {
        Some(TokenType::RightBrace)
    } else if c == ',' {
        Some(TokenType::Comma)
    } else if c == '.' {
        Some(TokenType::Dot)
    } else if c == '-' {
        Some(TokenType::Minus)
    } else if c == '+' {
        Some(TokenType::Plus)
    } else if c == ';' {
        Some(TokenType::Semicolon)
    } else if c == '*' {
        Some(TokenType::Star)
    } else {
        None
    }
}

/// The kind of the operator that begins with `c`, standing alone or with an
/// equals sign after it.
pub open spec fn operator(c: char, with_equals: bool) -> Option<TokenType> {
    if c == '!' {
        Some(if with_equals { TokenType::BangEqual } else { TokenType::Bang })
    } else if c == '=' {
        Some(if with_equals { TokenType::EqualEqual } else { TokenType::Equal })
    } else if c == '<' {
        Some(if with_equals { TokenType::LessEqual } else { TokenType::Less })
    } else if c == '>' {
        Some(if with_equals { TokenType::GreaterEqual } else { TokenType::Greater })
    } else {
        None
    }
}

/// `c` is white space that separates lexemes; the newline is one of them.
pub open spec fn is_space(c: char) -> bool {
    c == ' ' || c == '\r' || c == '\t' || c == '\n'
}

/// The string literal that begins at `pos` has its closing quote.
pub open spec fn string_closed(src: Seq<char>, pos: int) -> bool {
    pos + 1 + len_until(src, pos + 1, '"') < src.len()
}

/// The number literal that begins at `pos` has a fractional part.
pub open spec fn number_fractional(src: Seq<char>, pos: int) -> bool {
    fraction_at(src, pos + 1 + digits_len(src, pos + 1))
}

/// The number of characters that the lexeme beginning at `pos` has after its
/// first one.
///
/// - An operator takes the equals sign that follows it.
/// - A comment, two slashes, runs up to the end of its line; the newline is
///   not part of it.
/// - A string literal runs through its closing quote, or to the end of the
///   text where there is none.
/// - A number is a maximal run of digits and, where a dot and a digit follow
///   it, that dot and a further maximal run of digits.
/// - An identifier is a maximal run of letters, digits and underscores.
/// - Any other character stands alone.
pub open spec fn lexeme_rest(src: Seq<char>, pos: int) -> nat
    recommends
        0 <= pos < src.len(),
{
    let c = src[pos];
    if operator(c, false) is Some {
        if followed_by(src, pos, '=') {
            1
        } else {
            0
        }
    } else if c == '/' {
        if followed_by(src, pos, '/') {
            1 + len_until(src, pos + 2, '\n')
        } else {
            0
        }
    } else if c == '"' {
        let body = len_until(src, pos + 1, '"');
        if string_closed(src, pos) {
            body + 1
        } else {
            body
        }
    } else if is_digit(c) {
        let whole = digits_len(src, pos + 1);
        if number_fractional(src, pos) {
            whole + 1 + digits_len(src, pos + whole + 2)
        } else {
            whole
        }
    } else if is_alpha(c) {
        word_len(src, pos + 1)
    } else {
        0
    }
}

/// The position right after the lexeme that begins at `pos`.
pub open spec fn lexeme_end(src: Seq<char>, pos: int) -> int
    recommends
        0 <= pos < src.len(),
{
    pos + 1 + lexeme_rest(src, pos)
}

/// A lexeme is not empty and lies within the text.
pub proof fn lemma_lexeme_end(src: Seq<char>, pos: int)
    requires
        0 <= pos < src.len(),
    ensures
        pos < lexeme_end(src, pos) <= src.len(),
{
    let c = src[pos];
    if operator(c, false) is Some {
    } else if c == '/' {
        if followed_by(src, pos, '/') {
            lemma_run_len(src, pos + 2, Class::Except('\n'));
        }
    } else if c == '"' {
        lemma_run_len(src, pos + 1, Class::Except('"'));
    } else if is_digit(c) {
        lemma_run_len(src, pos + 1, Class::Digit);
        if number_fractional(src, pos) {
            lemma_run_len(src, pos + digits_len(src, pos + 1) + 2, Class::Digit);
        }
    } else if is_alpha(c) {
        lemma_run_len(src, pos + 1, Class::AlphaNumeric);
    }
}

/// The text of the lexeme that begins at `pos`.
pub open spec fn lexeme_text(src: Seq<char>, pos: int) -> Seq<char>
    recommends
        0 <= pos < src.len(),
{
    src.subrange(pos, lexeme_end(src, pos))
}

/// What the lexeme that begins at `pos` amounts to.
///
/// - Punctuation, operators and a lone slash make their token, with no
///   payload.
/// - White space, newlines and comments make nothing.
/// - A closed string literal makes a `String` token whose payload is the text
///   between its quotes; one that is not closed is a fault.
/// - A number with a fractional part makes a `Number` token whose payload is
///   its numeral; one without makes a `Number` token whose payload is its
///   value, or is a fault where a signed 32-bit integer cannot hold the value.
/// - A word that the keyword table holds makes the keyword's token, with no
///   payload; any other word makes an `Identifier` token whose payload is the
///   word.
/// - Any other character is a fault.
pub open spec fn classify(src: Seq<char>, pos: int) -> Lexeme
    recommends
        0 <= pos < src.len(),
{
    let c = src[pos];
    let text = lexeme_text(src, pos);
    if punctuation(c) is Some {
        Lexeme::Token { kind: punctuation(c).unwrap(), literal: LiteralView::Absent }
    } else if operator(c, false) is Some {
        Lexeme::Token {
            kind: operator(c, followed_by(src, pos, '=')).unwrap(),
            literal: LiteralView::Absent,
        }
    } else if c == '/' {
        if followed_by(src, pos, '/') {
            Lexeme::Blank
        } else {
            Lexeme::Token { kind: TokenType::Slash, literal: LiteralView::Absent }
        }
    } else if is_space(c) {
        Lexeme::Blank
    } else if c == '"' {
        if string_closed(src, pos) {
            Lexeme::Token {
                kind: TokenType::String,
                literal: LiteralView::String(text.subrange(1, text.len() - 1)),
            }
        } else {
            Lexeme::Fault { error: ScanError::UnterminatedString }
        }
    } else if is_digit(c) {
        if number_fractional(src, pos) {
            Lexeme::Token { kind: TokenType::Number, literal: LiteralView::Float(text) }
        } else if decimal_value(text) <= i32::MAX {
            Lexeme::Token {
                kind: TokenType::Number,
                literal: LiteralView::Integer(decimal_value(text) as int),
            }
        } else {
            Lexeme::Fault { error: ScanError::NumberOverflow }
        }
    } else if is_alpha(c) {
        match keyword_kind(text) {
            Some(kind) => Lexeme::Token { kind, literal: LiteralView::Absent },
            None => Lexeme::Token {
                kind: TokenType::Identifier,
                literal: LiteralView::String(text),
            },
        }
    } else {
        Lexeme::Fault { error: ScanError::UnexpectedCharacter }
    }
}

/// The tokens that the lexeme beginning at `pos`, on line `line`, adds: one
/// or none. A token stands on the line of its first character.
pub open spec fn emitted(src: Seq<char>, pos: int, line: nat) -> Seq<TokenView> {
    match classify(src, pos) {
        Lexeme::Token { kind, literal } => seq![
            TokenView { token_type: kind, lexeme: lexeme_text(src, pos), literal, line },
        ],
        _ => Seq::empty(),
    }
}

/// The diagnostics that the lexeme beginning at `pos`, on line `line`,
/// raises: one or none. A fault is reported on the line of the lexeme's first
/// character.
pub open spec fn reported(src: Seq<char>, pos: int, line: nat) -> Seq<DiagnosticView> {
    match classify(src, pos) {
        Lexeme::Fault { error } => seq![DiagnosticView::lexical(line, error)],
        _ => Seq::empty(),
    }
}

/// The end-of-input token on line `line`.
pub open spec fn eof_token(line: nat) -> TokenView {
    TokenView {
        token_type: TokenType::Eof,
        lexeme: Seq::empty(),
        literal: LiteralView::Absent,
        line,
    }
}

/// The tokens that scanning `src` from `pos` to its end gives, where `pos`
/// is on line `line`: the tokens of the lexemes, in source order, and the
/// end-of-input token after them.
pub open spec fn tokens_from(src: Seq<char>, pos: int, line: nat) -> Seq<TokenView>
    decreases src.len() - pos,
    via tokens_from_terminates
{
    if 0 <= pos < src.len() {
        let end = lexeme_end(src, pos);
        emitted(src, pos, line) + tokens_from(src, end, line + newlines(src, pos, end))
    } else {
        seq![eof_token(line)]
    }
}

#[via_fn]
proof fn tokens_from_terminates(src: Seq<char>, pos: int, line: nat) {
    if 0 <= pos < src.len() {
        lemma_lexeme_end(src, pos);
    }
}

/// The diagnostics that scanning `src` from `pos` to its end raises, in
/// source order, where `pos` is on line `line`.
pub open spec fn diagnostics_from(src: Seq<char>, pos: int, line: nat) -> Seq<DiagnosticView>
    decreases src.len() - pos,
    via diagnostics_from_terminates
{
    if 0 <= pos < src.len() {
        let end = lexeme_end(src, pos);
        reported(src, pos, line) + diagnostics_from(src, end, line + newlines(src, pos, end))
    } else {
        Seq::empty()
    }
}

#[via_fn]
proof fn diagnostics_from_terminates(src: Seq<char>, pos: int, line: nat) {
    if 0 <= pos < src.len() {
        lemma_lexeme_end(src, pos);
    }
}

/// The positions at which the tokens of a scan of `src` from `pos` begin; the
/// end-of-input token begins where the text ends.
pub open spec fn token_starts(src: Seq<char>, pos: int) -> Seq<int>
    decreases src.len() - pos,
    via token_starts_terminates
{
    if 0 <= pos < src.len() {
        let rest = token_starts(src, lexeme_end(src, pos));
        if classify(src, pos) is Token {
            seq![pos] + rest
        } else {
            rest
        }
    } else {
        seq![src.len() as int]
    }
}

#[via_fn]
proof fn token_starts_terminates(src: Seq<char>, pos: int) {
    if 0 <= pos < src.len() {
        lemma_lexeme_end(src, pos);
    }
}

/// Every lexeme of `src` from `pos` on is well formed: none of them is a
/// fault.
pub open spec fn valid_from(src: Seq<char>, pos: int) -> bool
    decreases src.len() - pos,
    via valid_from_terminates
{
    if 0 <= pos < src.len() {
        !(classify(src, pos) is Fault) && valid_from(src, lexeme_end(src, pos))
    } else {
        true
    }
}

#[via_fn]
proof fn valid_from_terminates(src: Seq<char>, pos: int) {
    if 0 <= pos < src.len() {
        lemma_lexeme_end(src, pos);
    }
}

/// The tokens of the whole of `src`.
pub open spec fn tokens_of(src: Seq<char>) -> Seq<TokenView> {
    tokens_from(src, 0, 1)
}

/// The diagnostics of the whole of `src`.
pub open spec fn diagnostics_of(src: Seq<char>) -> Seq<DiagnosticView> {
    diagnostics_from(src, 0, 1)
}

/// `src` holds well-formed lexemes only.
pub open spec fn is_valid(src: Seq<char>) -> bool {
    valid_from(src, 0)
}

} // verus!
