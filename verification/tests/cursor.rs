use lox_scanner::{scan, Literal, Lox, Scanner, Token, TokenType};

#[test]
fn new_scanner_has_read_nothing() {
    let scanner = Scanner::new("ab");
    assert!(!scanner.is_at_end());
    assert!(scanner.tokens().is_empty());
    assert_eq!(scanner.line(), 1);
    assert_eq!(scanner.peek(), 'a');
    assert_eq!(scanner.peek_next(), 'b');
}

#[test]
fn scanner_over_nothing_is_at_end() {
    let scanner = Scanner::new("");
    assert!(scanner.is_at_end());
    assert_eq!(scanner.peek(), '\0');
    assert_eq!(scanner.peek_next(), '\0');
}

#[test]
fn advance_reads_one_character() {
    let mut scanner = Scanner::new("xyz");
    assert_eq!(scanner.advance(), 'x');
    assert_eq!(scanner.peek(), 'y');
    assert_eq!(scanner.peek_next(), 'z');
    assert_eq!(scanner.advance(), 'y');
    assert_eq!(scanner.peek(), 'z');
    assert_eq!(scanner.peek_next(), '\0');
    assert!(!scanner.is_at_end());
    assert_eq!(scanner.advance(), 'z');
    assert!(scanner.is_at_end());
    assert_eq!(scanner.peek(), '\0');
}

#[test]
fn advance_goes_by_characters_not_bytes() {
    let mut scanner = Scanner::new("é→z");
    assert_eq!(scanner.peek_next(), '→');
    assert_eq!(scanner.advance(), 'é');
    assert_eq!(scanner.advance(), '→');
    assert_eq!(scanner.peek(), 'z');
    assert_eq!(scanner.advance(), 'z');
    assert!(scanner.is_at_end());
}

#[test]
fn advance_leaves_the_line_alone() {
    let mut scanner = Scanner::new("\n\n");
    scanner.advance();
    assert_eq!(scanner.line(), 1);
}

#[test]
fn peek_does_not_read() {
    let scanner = Scanner::new("q");
    assert_eq!(scanner.peek(), 'q');
    assert_eq!(scanner.peek(), 'q');
    assert!(!scanner.is_at_end());
}

#[test]
fn match_token_reads_only_the_expected_character() {
    let mut scanner = Scanner::new("=!");
    assert!(!scanner.match_token('!'));
    assert_eq!(scanner.peek(), '=');
    assert!(scanner.match_token('='));
    assert_eq!(scanner.peek(), '!');
    assert!(scanner.match_token('!'));
    assert!(scanner.is_at_end());
    assert!(!scanner.match_token('!'));
    assert!(!scanner.match_token('\0'));
    assert!(scanner.is_at_end());
}

#[test]
fn character_classes() {
    let scanner = Scanner::new("");
    for c in ['0', '5', '9'] {
        assert!(scanner.is_digit(c));
        assert!(!scanner.is_alpha(c));
        assert!(scanner.is_alpha_numeric(c));
    }
    for c in ['a', 'm', 'z', 'A', 'M', 'Z', '_'] {
        assert!(!scanner.is_digit(c));
        assert!(scanner.is_alpha(c));
        assert!(scanner.is_alpha_numeric(c));
    }
    for c in ['/', ':', '@', '[', '`', '{', ' ', '\0', '\n', 'é', '٣'] {
        assert!(!scanner.is_digit(c));
        assert!(!scanner.is_alpha(c));
        assert!(!scanner.is_alpha_numeric(c));
    }
}

#[test]
fn add_token_takes_the_text_read_since_the_lexeme_began() {
    let mut scanner = Scanner::new("ab");
    scanner.advance();
    scanner.advance();
    scanner.add_token(TokenType::Identifier, Literal::String("ab".to_string()));
    scanner.add_token(TokenType::Eof, Literal::Absent);
    assert_eq!(
        scanner.tokens(),
        &vec![
            Token {
                token_type: TokenType::Identifier,
                lexeme: "ab".to_string(),
                literal: Literal::String("ab".to_string()),
                line: 1,
            },
            Token {
                token_type: TokenType::Eof,
                lexeme: "ab".to_string(),
                literal: Literal::Absent,
                line: 1,
            },
        ]
    );
}

#[test]
fn scan_token_reads_one_lexeme() {
    let mut scanner = Scanner::new("<= \n\"a\nb\"x");
    let mut sink = Lox::new();
    scanner.scan_token(&mut sink);
    assert_eq!(scanner.tokens().len(), 1);
    assert_eq!(scanner.tokens()[0].token_type, TokenType::LessEqual);
    assert_eq!(scanner.tokens()[0].lexeme, "<=");
    assert_eq!(scanner.peek(), ' ');
    scanner.scan_token(&mut sink);
    assert_eq!(scanner.tokens().len(), 1);
    assert_eq!(scanner.peek(), '\n');
    assert_eq!(scanner.line(), 1);
    scanner.scan_token(&mut sink);
    assert_eq!(scanner.tokens().len(), 1);
    assert_eq!(scanner.line(), 2);
    assert_eq!(scanner.peek(), '"');
    scanner.scan_token(&mut sink);
    assert_eq!(scanner.tokens().len(), 2);
    assert_eq!(scanner.tokens()[1].token_type, TokenType::String);
    assert_eq!(scanner.tokens()[1].lexeme, "\"a\nb\"");
    assert_eq!(scanner.tokens()[1].literal, Literal::String("a\nb".to_string()));
    assert_eq!(scanner.tokens()[1].line, 2);
    assert_eq!(scanner.line(), 3);
    assert_eq!(scanner.peek(), 'x');
    scanner.scan_token(&mut sink);
    assert!(scanner.is_at_end());
    assert_eq!(scanner.tokens().len(), 3);
    assert!(!sink.had_error());
}

#[test]
fn scan_token_reports_and_moves_on() {
    let mut scanner = Scanner::new("#+");
    let mut sink = Lox::new();
    scanner.scan_token(&mut sink);
    assert!(scanner.tokens().is_empty());
    assert_eq!(sink.diagnostics().len(), 1);
    assert_eq!(scanner.peek(), '+');
}

#[test]
fn comment_stops_before_the_newline() {
    let mut scanner = Scanner::new("// a / b\nc");
    let mut sink = Lox::new();
    scanner.scan_token(&mut sink);
    assert_eq!(scanner.peek(), '\n');
    assert_eq!(scanner.line(), 1);
    assert!(scanner.tokens().is_empty());
}

#[test]
fn scan_tokens_goes_on_from_where_the_cursor_stands() {
    let mut scanner = Scanner::new("ab cd");
    let mut sink = Lox::new();
    scanner.advance();
    let tokens = scanner.scan_tokens(&mut sink);
    assert_eq!(
        tokens,
        vec![
            Token {
                token_type: TokenType::Identifier,
                lexeme: "b".to_string(),
                literal: Literal::String("b".to_string()),
                line: 1,
            },
            Token {
                token_type: TokenType::Identifier,
                lexeme: "cd".to_string(),
                literal: Literal::String("cd".to_string()),
                line: 1,
            },
            Token {
                token_type: TokenType::Eof,
                lexeme: String::new(),
                literal: Literal::Absent,
                line: 1,
            },
        ]
    );
    assert!(scanner.is_at_end());
    assert_eq!(scanner.tokens(), &tokens);
}

#[test]
fn scan_is_a_fresh_scanner_run_to_the_end() {
    let source = "var x = \"a\nb\"; // c\nprint x @ 12.5 99999999999;";
    let (tokens, sink) = scan(source);
    let mut scanner = Scanner::new(source);
    let mut other = Lox::new();
    let by_hand = scanner.scan_tokens(&mut other);
    assert_eq!(tokens, by_hand);
    assert_eq!(sink.diagnostics(), other.diagnostics());
    assert_eq!(tokens.len(), 10);
    assert_eq!(sink.diagnostics().len(), 2);
    assert_eq!(tokens.last().unwrap().line, 3);
}
