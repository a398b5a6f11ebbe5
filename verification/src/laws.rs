//! What holds of every scan.

use vstd::prelude::*;
use crate::chars::{
    digits_len, is_alpha, is_alpha_numeric, is_digit, lemma_newlines_count, lemma_newlines_none,
    lemma_newlines_split, lemma_run_len, lemma_run_len_is, newlines, Class,
};
use crate::diagnostics::{DiagnosticView, ScanError};
use crate::lexeme::{
    classify, diagnostics_from, diagnostics_of, eof_token, is_valid, lemma_lexeme_end, lexeme_end,
    lexeme_text, number_fractional, token_starts, tokens_from, tokens_of, valid_from, Lexeme,
};
use crate::numeral::{integer_of, is_numeral};
use crate::scanner::ScannerState;
use crate::token::{keyword_kind, LiteralView, TokenType, TokenView};

verus! {

/// A text raises no diagnostic exactly when all its lexemes are well formed.
pub proof fn lemma_valid_raises_nothing(src: Seq<char>, pos: int, line: nat)
    ensures
        valid_from(src, pos) <==> diagnostics_from(src, pos, line).len() == 0,
    decreases src.len() - pos,
{
    if 0 <= pos < src.len() {
        let end = lexeme_end(src, pos);
        lemma_lexeme_end(src, pos);
        lemma_valid_raises_nothing(src, end, line + newlines(src, pos, end));
    }
}

/// No lexeme makes an end-of-input token.
pub proof fn lemma_lexeme_is_not_eof(src: Seq<char>, pos: int)
    ensures
        classify(src, pos) matches Lexeme::Token { kind, .. } ==> kind != TokenType::Eof,
{
}

/// The tokens of a scan end with the end-of-input token, whose lexeme is
/// empty and whose line is the line of the scan's start plus the number of
/// newlines in the text scanned; no token before it is an end-of-input token.
pub proof fn lemma_ends_with_one_eof(src: Seq<char>, pos: int, line: nat)
    requires
        0 <= pos <= src.len(),
    ensures
        tokens_from(src, pos, line).len() >= 1,
        tokens_from(src, pos, line).last() == eof_token(
            line + newlines(src, pos, src.len() as int),
        ),
        forall|i: int|
            0 <= i < tokens_from(src, pos, line).len() - 1 ==> (#[trigger] tokens_from(
                src,
                pos,
                line,
            )[i]).token_type != TokenType::Eof,
    decreases src.len() - pos,
{
    if pos < src.len() {
        let end = lexeme_end(src, pos);
        let next = line + newlines(src, pos, end);
        lemma_lexeme_end(src, pos);
        lemma_ends_with_one_eof(src, end, next);
        lemma_newlines_split(src, pos, end, src.len() as int);
        lemma_lexeme_is_not_eof(src, pos);
    }
}

/// The tokens of a scan come in source order: each begins at a position of its
/// own, after the one before it; its lexeme is the text of the lexeme that
/// begins there; and it stands on the line of its first character, the line
/// of the scan's start plus the number of newlines in between.
pub proof fn lemma_tokens_in_source_order(src: Seq<char>, pos: int, line: nat)
    requires
        0 <= pos <= src.len(),
    ensures
        token_starts(src, pos).len() == tokens_from(src, pos, line).len(),
        forall|i: int|
            0 <= i < token_starts(src, pos).len() ==> pos <= (#[trigger] token_starts(
                src,
                pos,
            )[i]) <= src.len(),
        forall|i: int, j: int|
            0 <= i < j < token_starts(src, pos).len() ==> (#[trigger] token_starts(src, pos)[i])
                < (#[trigger] token_starts(src, pos)[j]),
        forall|i: int|
            0 <= i < token_starts(src, pos).len() ==> (#[trigger] tokens_from(
                src,
                pos,
                line,
            )[i]).line == line + newlines(src, pos, token_starts(src, pos)[i]),
        forall|i: int|
            0 <= i < token_starts(src, pos).len() - 1 ==> (#[trigger] tokens_from(
                src,
                pos,
                line,
            )[i]).lexeme == lexeme_text(src, token_starts(src, pos)[i]),
    decreases src.len() - pos,
{
    if pos < src.len() {
        let end = lexeme_end(src, pos);
        let next = line + newlines(src, pos, end);
        lemma_lexeme_end(src, pos);
        lemma_tokens_in_source_order(src, end, next);
        let starts = token_starts(src, pos);
        let tokens = tokens_from(src, pos, line);
        assert forall|i: int| 0 <= i < starts.len() implies (#[trigger] tokens[i]).line == line
            + newlines(src, pos, starts[i]) by {
            if starts[i] != pos {
                lemma_newlines_split(src, pos, end, starts[i]);
            }
        }
    }
}

/// The tokens of a scan stand on lines that never go down, from the line of
/// the scan's start on.
pub proof fn lemma_lines_never_go_down(src: Seq<char>, pos: int, line: nat)
    ensures
        forall|i: int|
            0 <= i < tokens_from(src, pos, line).len() ==> line <= (#[trigger] tokens_from(
                src,
                pos,
                line,
            )[i]).line,
        forall|i: int, j: int|
            0 <= i <= j < tokens_from(src, pos, line).len() ==> (#[trigger] tokens_from(
                src,
                pos,
                line,
            )[i]).line <= (#[trigger] tokens_from(src, pos, line)[j]).line,
    decreases src.len() - pos,
{
    if 0 <= pos < src.len() {
        let end = lexeme_end(src, pos);
        lemma_lexeme_end(src, pos);
        lemma_lines_never_go_down(src, end, line + newlines(src, pos, end));
    }
}

/// A text of well-formed lexemes scans without a diagnostic, and the last of
/// its tokens is the end-of-input token.
pub proof fn lemma_valid_source(src: Seq<char>)
    requires
        is_valid(src),
    ensures
        diagnostics_of(src).len() == 0,
        tokens_of(src).len() >= 1,
        tokens_of(src).last().token_type == TokenType::Eof,
{
    lemma_valid_raises_nothing(src, 0, 1);
    lemma_ends_with_one_eof(src, 0, 1);
}

/// The end-of-input token of a text stands on the line whose number is the
/// count of newline characters in the text, plus one.
pub proof fn lemma_eof_line(src: Seq<char>)
    ensures
        tokens_of(src).last() == eof_token(src.to_multiset().count('\n') + 1),
{
    lemma_ends_with_one_eof(src, 0, 1);
    lemma_newlines_count(src, src.len() as int);
    assert(src.subrange(0, src.len() as int) =~= src);
}

/// Scanning is deterministic: two texts that hold the same characters scan to
/// the same tokens and the same diagnostics.
pub proof fn lemma_scan_is_deterministic(a: Seq<char>, b: Seq<char>)
    requires
        a.len() == b.len(),
        forall|i: int| 0 <= i < a.len() ==> a[i] == b[i],
    ensures
        tokens_of(a) == tokens_of(b),
        diagnostics_of(a) == diagnostics_of(b),
{
    assert(a =~= b);
}

/// What a scanner finishes with is a function of its text, its position and
/// its line: two scanners that agree on them add the same tokens to what they
/// hold, end on the same line and raise the same diagnostics.
pub proof fn lemma_finish_is_deterministic(a: ScannerState, b: ScannerState)
    requires
        a.source == b.source,
        a.current == b.current,
        a.line == b.line,
    ensures
        a.finished().tokens.skip(a.tokens.len() as int) == b.finished().tokens.skip(
            b.tokens.len() as int,
        ),
        a.finished().line == b.finished().line,
        diagnostics_from(a.source, a.current as int, a.line) == diagnostics_from(
            b.source,
            b.current as int,
            b.line,
        ),
        a.tokens == b.tokens ==> a.finished() == b.finished(),
{
}

/// A number literal is a numeral, or a numeral, a dot and a numeral. One with
/// a fractional part makes a token that carries exactly that text; one
/// without makes a token that carries the integer that the numeral reads as,
/// and is a fault where it reads as none.
pub proof fn lemma_number(src: Seq<char>, pos: int)
    requires
        0 <= pos < src.len(),
        is_digit(src[pos]),
    ensures
        ({
            let text = lexeme_text(src, pos);
            let whole = 1 + digits_len(src, pos + 1) as int;
            if number_fractional(src, pos) {
                &&& whole + 1 < text.len()
                &&& is_numeral(text.subrange(0, whole))
                &&& text[whole] == '.'
                &&& is_numeral(text.subrange(whole + 1, text.len() as int))
                &&& classify(src, pos) == Lexeme::Token {
                    kind: TokenType::Number,
                    literal: LiteralView::Float(text),
                }
            } else {
                &&& is_numeral(text)
                &&& classify(src, pos) == match integer_of(text) {
                    Some(n) => Lexeme::Token {
                        kind: TokenType::Number,
                        literal: LiteralView::Integer(n as int),
                    },
                    None => Lexeme::Fault { error: ScanError::NumberOverflow },
                }
            }
        }),
{
    let whole = 1 + digits_len(src, pos + 1);
    lemma_run_len(src, pos + 1, Class::Digit);
    if number_fractional(src, pos) {
        lemma_run_len(src, pos + whole + 1, Class::Digit);
    }
}

/// A word, a letter or underscore and then letters, digits and underscores,
/// scans to one token and the end of input: the keyword's token, without a
/// payload, where the keyword table holds the word, and an identifier token
/// that carries the word where it does not.
pub proof fn lemma_word(word: Seq<char>)
    requires
        word.len() >= 1,
        is_alpha(word[0]),
        forall|i: int| 0 <= i < word.len() ==> is_alpha_numeric(#[trigger] word[i]),
    ensures
        diagnostics_of(word).len() == 0,
        keyword_kind(word) matches Some(kind) ==> tokens_of(word) == seq![
            TokenView { token_type: kind, lexeme: word, literal: LiteralView::Absent, line: 1 },
            eof_token(1),
        ],
        keyword_kind(word) is None ==> tokens_of(word) == seq![
            TokenView {
                token_type: TokenType::Identifier,
                lexeme: word,
                literal: LiteralView::String(word),
                line: 1,
            },
            eof_token(1),
        ],
{
    let len = word.len() as int;
    lemma_run_len_is(word, 1, len, Class::AlphaNumeric);
    assert(word.subrange(0, len) =~= word);
    lemma_newlines_none(word, 0, len);
    assert(tokens_from(word, len, 1) =~= seq![eof_token(1)]);
    assert(diagnostics_from(word, len, 1) =~= Seq::<DiagnosticView>::empty());
}

} // verus!
