use lox_scanner::numeral::{parse_integer, push_decimal};
use lox_scanner::text::chars_of;
use lox_scanner::token::keyword;
use lox_scanner::{Literal, Token, TokenType};

fn chars(text: &str) -> Vec<char> {
    text.chars().collect()
}

#[test]
fn chars_of_gives_the_characters_in_order() {
    assert_eq!(chars_of(""), Vec::<char>::new());
    assert_eq!(chars_of("a→b\n"), vec!['a', '→', 'b', '\n']);
}

#[test]
fn parse_integer_reads_numerals() {
    assert_eq!(parse_integer(&chars("0")), Some(0));
    assert_eq!(parse_integer(&chars("42")), Some(42));
    assert_eq!(parse_integer(&chars("0000123")), Some(123));
    assert_eq!(parse_integer(&chars("2147483647")), Some(2147483647));
    assert_eq!(parse_integer(&chars("2147483639")), Some(2147483639));
    assert_eq!(parse_integer(&chars("00002147483647")), Some(2147483647));
}

#[test]
fn parse_integer_gives_nothing_out_of_range() {
    assert_eq!(parse_integer(&chars("2147483648")), None);
    assert_eq!(parse_integer(&chars("2147483650")), None);
    assert_eq!(parse_integer(&chars("4294967296")), None);
    assert_eq!(parse_integer(&chars("99999999999999999999999999999999")), None);
}

#[test]
fn parse_integer_gives_nothing_for_other_text() {
    assert_eq!(parse_integer(&chars("")), None);
    assert_eq!(parse_integer(&chars("12a")), None);
    assert_eq!(parse_integer(&chars("-1")), None);
    assert_eq!(parse_integer(&chars("+1")), None);
    assert_eq!(parse_integer(&chars("1.5")), None);
    assert_eq!(parse_integer(&chars(" 1")), None);
    assert_eq!(parse_integer(&chars("٣")), None);
}

#[test]
fn push_decimal_appends_the_numeral() {
    let mut out = vec!['#'];
    push_decimal(0, &mut out);
    assert_eq!(out, chars("#0"));
    push_decimal(7, &mut out);
    push_decimal(10, &mut out);
    push_decimal(90210, &mut out);
    assert_eq!(out, chars("#071090210"));
    let mut largest = Vec::new();
    push_decimal(usize::MAX, &mut largest);
    assert_eq!(largest, chars(&usize::MAX.to_string()));
}

#[test]
fn keyword_table() {
    let table = [
        ("false", TokenType::False),
        ("for", TokenType::For),
        ("fun", TokenType::Fun),
        ("if", TokenType::If),
        ("nil", TokenType::Nil),
        ("or", TokenType::Or),
        ("print", TokenType::Print),
        ("return", TokenType::Return),
        ("super", TokenType::Super),
        ("this", TokenType::This),
        ("true", TokenType::True),
        ("var", TokenType::Var),
        ("while", TokenType::While),
    ];
    for (spelling, kind) in table.iter() {
        assert_eq!(keyword(&chars(spelling)), Some(*kind));
    }
}

#[test]
fn keyword_match_is_exact() {
    for other in ["", "whilex", "whil", "While", "WHILE", " if", "if ", "i", "and", "class", "else"] {
        assert_eq!(keyword(&chars(other)), None);
    }
}

#[test]
fn clones_are_equal() {
    let token = Token {
        token_type: TokenType::String,
        lexeme: "\"s\"".to_string(),
        literal: Literal::String("s".to_string()),
        line: 4,
    };
    assert_eq!(token.clone(), token);
    for literal in [
        Literal::Integer(-3),
        Literal::Float("1.5".to_string()),
        Literal::String("x".to_string()),
        Literal::Absent,
    ] {
        assert_eq!(literal.clone(), literal);
    }
}
