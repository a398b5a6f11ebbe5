//! The scanner: a cursor over the source text and the state machine that
//! drives it, lexeme by lexeme, to the end of the text.

use vstd::prelude::*;
use vstd::slice::slice_subrange;
use crate::chars;
use crate::chars::{
    digits_len, lemma_newlines_none, lemma_newlines_one, lemma_newlines_split, lemma_run_len,
    len_until, newlines, word_len, Class,
};
use crate::diagnostics::{Lox, ScanError};
use crate::lexeme::{
    diagnostics_from, diagnostics_of, emitted, lemma_lexeme_end, lexeme_end, reported, tokens_from,
    tokens_of,
};
use crate::numeral::parse_integer;
use crate::text::{chars_of, string_of};
use crate::token::{keyword, Literal, Token, TokenType, TokenView};

verus! {

/// The mathematical value of a [`Scanner`].
#[verifier::ext_equal]
pub struct ScannerState {
    /// The text that is scanned.
    pub source: Seq<char>,
    /// The tokens made so far.
    pub tokens: Seq<TokenView>,
    /// Where the lexeme that is being read begins.
    pub start: nat,
    /// The position of the next character to read.
    pub current: nat,
    /// The 1-based line that is being read.
    pub line: nat,
}

impl ScannerState {
    /// The state in which nothing of `source` has been read.
    pub open spec fn initial(source: Seq<char>) -> ScannerState {
        ScannerState { source, tokens: Seq::empty(), start: 0, current: 0, line: 1 }
    }

    /// Every character has been read.
    pub open spec fn at_end(self) -> bool {
        self.current >= self.source.len()
    }

    /// The next character, or the null character where there is none.
    pub open spec fn peek(self) -> char {
        if self.current < self.source.len() {
            self.source[self.current as int]
        } else {
            '\0'
        }
    }

    /// The character after the next one, or the null character where there is
    /// none.
    pub open spec fn peek_next(self) -> char {
        if self.current + 1 < self.source.len() {
            self.source[self.current as int + 1]
        } else {
            '\0'
        }
    }

    /// The text between `start` and `current`.
    pub open spec fn lexeme(self) -> Seq<char> {
        self.source.subrange(self.start as int, self.current as int)
    }

    /// The state once the lexeme that begins at `start` has been read in full:
    /// the cursor stands right after it, its token, if it makes one, is added,
    /// and the line has gone up by the newlines that it holds.
    pub open spec fn lexed(self) -> ScannerState {
        let end = lexeme_end(self.source, self.start as int);
        ScannerState {
            source: self.source,
            tokens: self.tokens + emitted(self.source, self.start as int, self.line),
            start: self.start,
            current: end as nat,
            line: self.line + newlines(self.source, self.start as int, end),
        }
    }

    /// The state after the next lexeme has been read.
    pub open spec fn step(self) -> ScannerState {
        (ScannerState { start: self.current, ..self }).lexed()
    }

    /// The state after the rest of the text has been read and the
    /// end-of-input token added.
    pub open spec fn finished(self) -> ScannerState {
        let len = self.source.len();
        ScannerState {
            source: self.source,
            tokens: self.tokens + tokens_from(self.source, self.current as int, self.line),
            start: len,
            current: len,
            line: self.line + newlines(self.source, self.current as int, len as int),
        }
    }
}

/// A scanner over one source text.
pub struct Scanner {
    source: Vec<char>,
    tokens: Vec<Token>,
    start: usize,
    current: usize,
    line: usize,
}

impl View for Scanner {
    type V = ScannerState;

    closed spec fn view(&self) -> ScannerState {
        ScannerState {
            source: self.source@,
            tokens: self.tokens.deep_view(),
            start: self.start as nat,
            current: self.current as nat,
            line: self.line as nat,
        }
    }
}

impl Scanner {
    /// What holds of every scanner: the lexeme that is being read lies within
    /// the text, and the text is short enough for the number of each of its
    /// lines to fit the counter.
    #[verifier::type_invariant]
    spec fn well_formed(&self) -> bool {
        &&& self.start <= self.current <= self.source.len()
        &&& self.source.len() < usize::MAX
        &&& self.line <= self.current + 1
    }

    /// A scanner that has read nothing of `source` yet. The text must be
    /// short enough for the number of its last line to fit a `usize`.
    pub fn new(source: &str) -> (scanner: Scanner)
        requires
            source@.len() < usize::MAX,
        ensures
            scanner@ == ScannerState::initial(source@),
    {
        let scanner = Scanner {
            source: chars_of(source),
            tokens: Vec::new(),
            start: 0,
            current: 0,
            line: 1,
        };
        scanner
    }

    /// The tokens made so far.
    pub fn tokens(&self) -> (tokens: &Vec<Token>)
        ensures
            tokens.deep_view() == self@.tokens,
    {
        &self.tokens
    }

    /// The 1-based line that is being read.
    pub fn line(&self) -> (line: usize)
        ensures
            line == self@.line,
    {
        self.line
    }

    /// Whether every character has been read.
    pub fn is_at_end(&self) -> (at_end: bool)
        ensures
            at_end == self@.at_end(),
    {
        self.current >= self.source.len()
    }

    /// Reads the next character.
    pub fn advance(&mut self) -> (c: char)
        requires
            !old(self)@.at_end(),
        ensures
            c == old(self)@.peek(),
            final(self)@ == (ScannerState {
                current: old(self)@.current + 1,
                ..old(self)@
            }),
    {
        proof {
            use_type_invariant(&*self);
        }
        let c = self.source[self.current];
        self.current += 1;
        c
    }

    /// Reads the next character if it is `expected`, and says whether it did.
    pub fn match_token(&mut self, expected: char) -> (matched: bool)
        ensures
            matched == (!old(self)@.at_end() && old(self)@.peek() == expected),
            final(self)@ == (ScannerState {
                current: if matched {
                    old(self)@.current + 1
                } else {
                    old(self)@.current
                },
                ..old(self)@
            }),
    {
        proof {
            use_type_invariant(&*self);
        }
        if self.is_at_end() {
            return false;
        }
        if self.source[self.current] != expected {
            return false;
        }
        self.current += 1;
        true
    }

    /// The next character, not read; the null character at the end.
    pub fn peek(&self) -> (c: char)
        ensures
            c == self@.peek(),
    {
        if self.is_at_end() {
            return '\0';
        }
        self.source[self.current]
    }

    /// The character after the next one, not read; the null character where
    /// there is none.
    pub fn peek_next(&self) -> (c: char)
        ensures
            c == self@.peek_next(),
    {
        proof {
            use_type_invariant(self);
        }
        if self.current + 1 >= self.source.len() {
            return '\0';
        }
        self.source[self.current + 1]
    }

    /// Whether `c` is a decimal digit.
    pub fn is_digit(&self, c: char) -> (digit: bool)
        ensures
            digit == chars::is_digit(c),
    {
        c >= '0' && c <= '9'
    }

    /// Whether `c` is an ASCII letter or an underscore.
    pub fn is_alpha(&self, c: char) -> (alpha: bool)
        ensures
            alpha == chars::is_alpha(c),
    {
        (c >= 'a' && c <= 'z') || (c >= 'A' && c <= 'Z') || c == '_'
    }

    /// Whether `c` may continue an identifier.
    pub fn is_alpha_numeric(&self, c: char) -> (alpha_numeric: bool)
        ensures
            alpha_numeric == chars::is_alpha_numeric(c),
    {
        self.is_alpha(c) || self.is_digit(c)
    }

    /// Adds a token of kind `token_type` with the payload `literal`; its
    /// lexeme is the text between `start` and `current`, its line the line
    /// that is being read.
    pub fn add_token(&mut self, token_type: TokenType, literal: Literal)
        ensures
            final(self)@ == (ScannerState {
                tokens: old(self)@.tokens.push(
                    TokenView {
                        token_type,
                        lexeme: old(self)@.lexeme(),
                        literal: literal@,
                        line: old(self)@.line,
                    },
                ),
                ..old(self)@
            }),
    {
        proof {
            use_type_invariant(&*self);
        }
        let text = string_of(slice_subrange(self.source.as_slice(), self.start, self.current));
        let token = Token { token_type, lexeme: text, literal, line: self.line };
        // The list is taken out of the scanner while it grows, and put back.
        let mut tokens: Vec<Token> = Vec::new();
        core::mem::swap(&mut self.tokens, &mut tokens);
        tokens.push(token);
        core::mem::swap(&mut self.tokens, &mut tokens);
    }

    /// Reads the rest of a word whose first character has been read, and adds
    /// its token: the keyword's where the keyword table holds the word, an
    /// identifier's otherwise.
    fn identifier(&mut self)
        requires
            old(self)@.start + 1 == old(self)@.current <= old(self)@.source.len(),
            chars::is_alpha(old(self)@.source[old(self)@.start as int]),
        ensures
            final(self)@ == old(self)@.lexed(),
    {
        let ghost before = self@;
        let ghost src = self@.source;
        let ghost pos = self@.start as int;
        proof {
            use_type_invariant(&*self);
        }
        while self.is_alpha_numeric(self.peek())
            invariant
                self@ == (ScannerState { current: self@.current, ..before }),
                src == before.source,
                pos + 1 <= self@.current <= src.len(),
                self@.current + word_len(src, self@.current as int) == pos + 1 + word_len(
                    src,
                    pos + 1,
                ),
            decreases src.len() - self@.current,
        {
            self.advance();
        }
        proof {
            use_type_invariant(&*self);
            lemma_run_len(src, pos + 1, Class::AlphaNumeric);
            lemma_newlines_none(src, pos, self@.current as int);
        }
        let kind = keyword(slice_subrange(self.source.as_slice(), self.start, self.current));
        match kind {
            Some(token_type) => self.add_token(token_type, Literal::Absent),
            None => {
                let text = string_of(
                    slice_subrange(self.source.as_slice(), self.start, self.current),
                );
                self.add_token(TokenType::Identifier, Literal::String(text));
            },
        }
    }

    /// Reads the rest of a number literal whose first digit has been read. A
    /// number with a fractional part makes a token that carries its numeral;
    /// one without makes a token that carries its value, or is reported where
    /// a signed 32-bit integer cannot hold the value.
    fn number(&mut self, sink: &mut Lox)
        requires
            old(self)@.start + 1 == old(self)@.current <= old(self)@.source.len(),
            chars::is_digit(old(self)@.source[old(self)@.start as int]),
        ensures
            final(self)@ == old(self)@.lexed(),
            final(sink)@ == old(sink)@ + reported(
                old(self)@.source,
                old(self)@.start as int,
                old(self)@.line,
            ),
    {
        let ghost before = self@;
        let ghost src = self@.source;
        let ghost pos = self@.start as int;
        let ghost whole = digits_len(src, pos + 1);
        proof {
            use_type_invariant(&*self);
            lemma_run_len(src, pos + 1, Class::Digit);
        }
        let mut float_num = false;
        while self.is_digit(self.peek())
            invariant
                self@ == (ScannerState { current: self@.current, ..before }),
                src == before.source,
                pos + 1 <= self@.current <= src.len(),
                self@.current + digits_len(src, self@.current as int) == pos + 1 + whole,
            decreases src.len() - self@.current,
        {
            self.advance();
        }
        if self.peek() == '.' && self.is_digit(self.peek_next()) {
            float_num = true;
            self.advance();
            let ghost fraction = digits_len(src, pos + whole + 2);
            proof {
                lemma_run_len(src, pos + whole + 2, Class::Digit);
            }
            while self.is_digit(self.peek())
                invariant
                    self@ == (ScannerState { current: self@.current, ..before }),
                    src == before.source,
                    pos + whole + 2 <= self@.current <= src.len(),
                    self@.current + digits_len(src, self@.current as int) == pos + whole + 2
                        + fraction,
                decreases src.len() - self@.current,
            {
                self.advance();
            }
        }
        proof {
            use_type_invariant(&*self);
            lemma_newlines_none(src, pos, self@.current as int);
        }
        if float_num {
            let numeral = string_of(
                slice_subrange(self.source.as_slice(), self.start, self.current),
            );
            self.add_token(TokenType::Number, Literal::Float(numeral));
        } else {
            let value = parse_integer(
                slice_subrange(self.source.as_slice(), self.start, self.current),
            );
            match value {
                Some(n) => self.add_token(TokenType::Number, Literal::Integer(n)),
                None => sink.error(self.line, ScanError::NumberOverflow.message()),
            }
        }
    }

    /// Reads the rest of a string literal whose opening quote has been read.
    /// A literal that is closed makes a token that carries the text between
    /// its quotes; one that is not is reported. Either stands on the line of
    /// its opening quote.
    fn scan_string(&mut self, sink: &mut Lox)
        requires
            old(self)@.start + 1 == old(self)@.current <= old(self)@.source.len(),
            old(self)@.source[old(self)@.start as int] == '"',
        ensures
            final(self)@ == old(self)@.lexed(),
            final(sink)@ == old(sink)@ + reported(
                old(self)@.source,
                old(self)@.start as int,
                old(self)@.line,
            ),
    {
        let ghost before = self@;
        let ghost src = self@.source;
        let ghost pos = self@.start as int;
        let ghost body = len_until(src, pos + 1, '"');
        proof {
            use_type_invariant(&*self);
            lemma_run_len(src, pos + 1, Class::Except('"'));
        }
        let mut breaks: usize = 0;
        while self.peek() != '"' && !self.is_at_end()
            invariant
                self@ == (ScannerState { current: self@.current, ..before }),
                src == before.source,
                pos + 1 <= self@.current <= src.len(),
                self@.current + len_until(src, self@.current as int, '"') == pos + 1 + body,
                src.len() < usize::MAX,
                pos == before.start,
                breaks == newlines(src, pos + 1, self@.current as int),
                breaks <= self@.current - (pos + 1),
            decreases src.len() - self@.current,
        {
            if self.peek() == '\n' {
                breaks += 1;
            }
            self.advance();
        }
        proof {
            use_type_invariant(&*self);
            lemma_newlines_none(src, pos, pos + 1);
            lemma_newlines_split(src, pos, pos + 1, self@.current as int);
        }
        if self.is_at_end() {
            sink.error(self.line, ScanError::UnterminatedString.message());
            self.line += breaks;
            return;
        }
        self.advance();
        proof {
            use_type_invariant(&*self);
            lemma_newlines_none(src, self@.current - 1, self@.current as int);
            lemma_newlines_split(src, pos, self@.current - 1, self@.current as int);
        }
        let value = string_of(
            slice_subrange(self.source.as_slice(), self.start + 1, self.current - 1),
        );
        self.add_token(TokenType::String, Literal::String(value));
        self.line += breaks;
        proof {
            let text = src.subrange(pos, self@.current as int);
            assert(text.subrange(1, text.len() - 1) =~= src.subrange(pos + 1, self@.current - 1));
        }
    }

    /// Reads the next lexeme: adds its token, if it makes one, and reports it
    /// to `sink`, if it is malformed. Scanning goes on after a fault.
    pub fn scan_token(&mut self, sink: &mut Lox)
        requires
            !old(self)@.at_end(),
        ensures
            final(self)@ == old(self)@.step(),
            final(sink)@ == old(sink)@ + reported(
                old(self)@.source,
                old(self)@.current as int,
                old(self)@.line,
            ),
    {
        let ghost before = self@;
        let ghost src = self@.source;
        let ghost pos = self@.current as int;
        proof {
            use_type_invariant(&*self);
            lemma_newlines_one(src, pos);
        }
        self.start = self.current;
        let c = self.advance();
        match c {
            '(' => self.add_token(TokenType::LeftParen, Literal::Absent),
            ')' => self.add_token(TokenType::RightParen, Literal::Absent),
            '{' => self.add_token(TokenType::LeftBrace, Literal::Absent),
            '}' => self.add_token(TokenType::RightBrace, Literal::Absent),
            ',' => self.add_token(TokenType::Comma, Literal::Absent),
            '.' => self.add_token(TokenType::Dot, Literal::Absent),
            '-' => self.add_token(TokenType::Minus, Literal::Absent),
            '+' => self.add_token(TokenType::Plus, Literal::Absent),
            ';' => self.add_token(TokenType::Semicolon, Literal::Absent),
            '*' => self.add_token(TokenType::Star, Literal::Absent),
            '!' => {
                if self.match_token('=') {
                    self.add_token(TokenType::BangEqual, Literal::Absent);
                } else {
                    self.add_token(TokenType::Bang, Literal::Absent)
                }
            },
            '=' => {
                if self.match_token('=') {
                    self.add_token(TokenType::EqualEqual, Literal::Absent);
                } else {
                    self.add_token(TokenType::Equal, Literal::Absent)
                }
            },
            '<' => {
                if self.match_token('=') {
                    self.add_token(TokenType::LessEqual, Literal::Absent);
                } else {
                    self.add_token(TokenType::Less, Literal::Absent)
                }
            },
            '>' => {
                if self.match_token('=') {
                    self.add_token(TokenType::GreaterEqual, Literal::Absent);
                } else {
                    self.add_token(TokenType::Greater, Literal::Absent)
                }
            },
            '/' => {
                if self.match_token('/') {
                    let ghost rest = len_until(src, pos + 2, '\n');
                    proof {
                        lemma_run_len(src, pos + 2, Class::Except('\n'));
                    }
                    while self.peek() != '\n' && !self.is_at_end()
                        invariant
                            self@ == (ScannerState {
                                start: pos as nat,
                                current: self@.current,
                                ..before
                            }),
                            src == before.source,
                            pos + 2 <= self@.current <= src.len(),
                            self@.current + len_until(src, self@.current as int, '\n') == pos
                                + 2 + rest,
                        decreases src.len() - self@.current,
                    {
                        self.advance();
                    }
                    proof {
                        lemma_newlines_none(src, pos, self@.current as int);
                    }
                } else {
                    self.add_token(TokenType::Slash, Literal::Absent)
                }
            },
            ' ' => (),
            '\r' => (),
            '\t' => (),
            '\n' => self.line += 1,
            '"' => self.scan_string(sink),
            _ => {
                if self.is_digit(c) {
                    self.number(sink);
                } else if self.is_alpha(c) {
                    self.identifier();
                } else {
                    sink.error(self.line, ScanError::UnexpectedCharacter.message())
                }
            },
        }
        proof {
            if (c == '!' || c == '=' || c == '<' || c == '>') && self@.current == pos + 2 {
                lemma_newlines_none(src, pos, pos + 2);
            }
        }
    }

    /// Reads the text to its end, lexeme by lexeme, and adds the end-of-input
    /// token. Faults are reported to `sink` and do not stop the scan. Returns
    /// the tokens made so far, those of this scan last.
    pub fn scan_tokens(&mut self, sink: &mut Lox) -> (tokens: Vec<Token>)
        ensures
            final(self)@ == old(self)@.finished(),
            tokens.deep_view() == final(self)@.tokens,
            final(sink)@ == old(sink)@ + diagnostics_from(
                old(self)@.source,
                old(self)@.current as int,
                old(self)@.line,
            ),
    {
        let ghost before = self@;
        let ghost src = self@.source;
        let ghost before_sink = sink@;
        proof {
            use_type_invariant(&*self);
        }
        while !self.is_at_end()
            invariant
                self@.source == src,
                src == before.source,
                self@.current <= src.len(),
                self@.tokens + tokens_from(src, self@.current as int, self@.line)
                    == before.tokens + tokens_from(src, before.current as int, before.line),
                sink@ + diagnostics_from(src, self@.current as int, self@.line) == before_sink
                    + diagnostics_from(src, before.current as int, before.line),
                self@.line + newlines(src, self@.current as int, src.len() as int) == before.line
                    + newlines(src, before.current as int, src.len() as int),
            decreases src.len() - self@.current,
        {
            let ghost here = self@;
            let ghost here_sink = sink@;
            self.scan_token(sink);
            proof {
                use_type_invariant(&*self);
                let end = lexeme_end(src, here.current as int);
                lemma_lexeme_end(src, here.current as int);
                lemma_newlines_split(src, here.current as int, end, src.len() as int);
                assert(self@.tokens + tokens_from(src, self@.current as int, self@.line)
                    =~= here.tokens + tokens_from(src, here.current as int, here.line));
                assert(sink@ + diagnostics_from(src, self@.current as int, self@.line)
                    =~= here_sink + diagnostics_from(src, here.current as int, here.line));
            }
        }
        proof {
            use_type_invariant(&*self);
        }
        self.start = self.current;
        self.add_token(TokenType::Eof, Literal::Absent);
        let tokens = self.tokens.clone();
        proof {
            assert(self@.lexeme() =~= Seq::<char>::empty());
            assert(sink@ =~= before_sink + diagnostics_from(
                src,
                before.current as int,
                before.line,
            ));
        }
        tokens
    }
}

/// Scans the whole of `source`: its tokens, the end-of-input token last, and
/// a sink that holds its diagnostics.
pub fn scan(source: &str) -> (outcome: (Vec<Token>, Lox))
    requires
        source@.len() < usize::MAX,
    ensures
        outcome.0.deep_view() == tokens_of(source@),
        outcome.1@ == diagnostics_of(source@),
{
    let mut sink = Lox::new();
    let mut scanner = Scanner::new(source);
    let tokens = scanner.scan_tokens(&mut sink);
    (tokens, sink)
}

} // verus!
