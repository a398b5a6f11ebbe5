//! Tokens: their kinds, their literal payloads and the keyword table.

use vstd::prelude::*;

verus! {

/// The closed set of token kinds.
#[derive(Debug, Clone, Copy, PartialEq, Eq, Hash, Structural)]
pub enum TokenType {
    // Single-character tokens.
    LeftParen,
    RightParen,
    LeftBrace,
    RightBrace,
    Comma,
    Dot,
    Minus,
    Plus,
    Semicolon,
    Slash,
    Star,
    // One or two character tokens.
    Bang,
    BangEqual,
    Equal,
    EqualEqual,
    Greater,
    GreaterEqual,
    Less,
    LessEqual,
    // Literals.
    Identifier,
    String,
    Number,
    // Keywords.
    And,
    Class,
    Else,
    False,
    Fun,
    For,
    If,
    Nil,
    Or,
    Print,
    Return,
    Super,
    This,
    True,
    Var,
    While,
    // End of input.
    Eof,
}

/// The decoded payload of a token.
///
/// A fractional number carries its decimal numeral, digits, a dot and digits,
/// which denotes its value exactly; turning the numeral into a binary
/// floating-point number is left to the consumer of the tokens.
#[derive(Debug, PartialEq, Eq)]
pub enum Literal {
    Integer(i32),
    Float(String),
    String(String),
    Absent,
}

/// The mathematical value of a [`Literal`].
pub enum LiteralView {
    Integer(int),
    Float(Seq<char>),
    String(Seq<char>),
    Absent,
}

impl View for Literal {
    type V = LiteralView;

    open spec fn view(&self) -> LiteralView {
        match self {
            Literal::Integer(n) => LiteralView::Integer(*n as int),
            Literal::Float(numeral) => LiteralView::Float(numeral@),
            Literal::String(text) => LiteralView::String(text@),
            Literal::Absent => LiteralView::Absent,
        }
    }
}

impl Clone for Literal {
    fn clone(&self) -> (copy: Self)
        ensures
            copy == *self,
    {
        match self {
            Literal::Integer(n) => Literal::Integer(*n),
            Literal::Float(numeral) => Literal::Float(numeral.clone()),
            Literal::String(text) => Literal::String(text.clone()),
            Literal::Absent => Literal::Absent,
        }
    }
}

/// One lexical unit of the source text.
#[derive(Debug, PartialEq, Eq)]
pub struct Token {
    pub token_type: TokenType,
    /// The exact stretch of source text that the token was read from.
    pub lexeme: String,
    pub literal: Literal,
    /// The 1-based line on which the token's first character stands.
    pub line: usize,
}

/// The mathematical value of a [`Token`].
pub struct TokenView {
    pub token_type: TokenType,
    pub lexeme: Seq<char>,
    pub literal: LiteralView,
    pub line: nat,
}

impl View for Token {
    type V = TokenView;

    open spec fn view(&self) -> TokenView {
        TokenView {
            token_type: self.token_type,
            lexeme: self.lexeme@,
            literal: self.literal@,
            line: self.line as nat,
        }
    }
}

impl DeepView for Token {
    type V = TokenView;

    open spec fn deep_view(&self) -> TokenView {
        self@
    }
}

impl Clone for Token {
    fn clone(&self) -> (copy: Self)
        ensures
            copy == *self,
    {
        Token {
            token_type: self.token_type,
            lexeme: self.lexeme.clone(),
            literal: self.literal.clone(),
            line: self.line,
        }
    }
}

/// The keyword table: the reserved kind that a spelling stands for, if any.
/// The match is exact and case-sensitive.
///
/// The table has no entry for the kinds `And`, `Class` and `Else`: the words
/// `and`, `class` and `else` are identifiers to the scanner.
pub open spec fn keyword_kind(text: Seq<char>) -> Option<TokenType> {
    if text == "false"@ {
        Some(TokenType::False)
    } else if text == "for"@ {
        Some(TokenType::For)
    } else if text == "fun"@ {
        Some(TokenType::Fun)
    } else if text == "if"@ {
        Some(TokenType::If)
    } else if text == "nil"@ {
        Some(TokenType::Nil)
    } else if text == "or"@ {
        Some(TokenType::Or)
    } else if text == "print"@ {
        Some(TokenType::Print)
    } else if text == "return"@ {
        Some(TokenType::Return)
    } else if text == "super"@ {
        Some(TokenType::Super)
    } else if text == "this"@ {
        Some(TokenType::This)
    } else if text == "true"@ {
        Some(TokenType::True)
    } else if text == "var"@ {
        Some(TokenType::Var)
    } else if text == "while"@ {
        Some(TokenType::While)
    } else {
        None
    }
}

/// Whether `text` spells `word`, character by character.
fn spells(text: &[char], word: &str) -> (same: bool)
    ensures
        same == (text@ == word@),
{
    let n: usize = word.unicode_len();
    if text.len() != n {
        return false;
    }
    let mut i: usize = 0;
    while i < n
        invariant
            i <= n,
            n == text@.len(),
            n == word@.len(),
            forall|j: int| 0 <= j < i ==> text@[j] == word@[j],
        decreases n - i,
    {
        if text[i] != word.get_char(i) {
            return false;
        }
        i += 1;
    }
    assert(text@ =~= word@);
    true
}

/// Looks `text` up in the keyword table.
pub fn keyword(text: &[char]) -> (kind: Option<TokenType>)
    ensures
        kind == keyword_kind(text@),
{
    if spells(text, "false") {
        Some(TokenType::False)
    } else if spells(text, "for") {
        Some(TokenType::For)
    } else if spells(text, "fun") {
        Some(TokenType::Fun)
    } else if spells(text, "if") {
        Some(TokenType::If)
    } else if spells(text, "nil") {
        Some(TokenType::Nil)
    } else if spells(text, "or") {
        Some(TokenType::Or)
    } else if spells(text, "print") {
        Some(TokenType::Print)
    } else if spells(text, "return") {
        Some(TokenType::Return)
    } else if spells(text, "super") {
        Some(TokenType::Super)
    } else if spells(text, "this") {
        Some(TokenType::This)
    } else if spells(text, "true") {
        Some(TokenType::True)
    } else if spells(text, "var") {
        Some(TokenType::Var)
    } else if spells(text, "while") {
        Some(TokenType::While)
    } else {
        None
    }
}

} // verus!
