use lox_scanner::{scan, Diagnostic, Lox, ScanError};

#[test]
fn new_sink_holds_nothing() {
    let sink = Lox::new();
    assert!(!sink.had_error());
    assert!(sink.diagnostics().is_empty());
}

#[test]
fn error_records_line_and_message_without_context() {
    let mut sink = Lox::new();
    sink.error(12, "Unexpected character.");
    assert!(sink.had_error());
    assert_eq!(
        sink.diagnostics(),
        &vec![Diagnostic {
            line: 12,
            context: String::new(),
            message: "Unexpected character.".to_string(),
        }]
    );
}

#[test]
fn report_records_the_context() {
    let mut sink = Lox::new();
    sink.report(3, " at end".to_string(), "Expect expression.");
    sink.error(4, "Unterminated string.");
    assert!(sink.had_error());
    let diagnostics = sink.diagnostics();
    assert_eq!(diagnostics.len(), 2);
    assert_eq!(
        diagnostics[0],
        Diagnostic {
            line: 3,
            context: " at end".to_string(),
            message: "Expect expression.".to_string(),
        }
    );
    assert_eq!(diagnostics[1].line, 4);
    assert_eq!(diagnostics[1].context, "");
    assert_eq!(diagnostics[1].message, "Unterminated string.");
}

#[test]
fn messages_of_the_error_kinds() {
    assert_eq!(ScanError::UnexpectedCharacter.message(), "Unexpected character.");
    assert_eq!(ScanError::UnterminatedString.message(), "Unterminated string.");
    assert_eq!(ScanError::UnterminatedComment.message(), "Unterminated comment.");
    assert_eq!(ScanError::NumberOverflow.message(), "Number out of range.");
}

#[test]
fn render_of_a_lexical_error() {
    let diagnostic = Diagnostic {
        line: 3,
        context: String::new(),
        message: "Unexpected character.".to_string(),
    };
    assert_eq!(diagnostic.render(), "[line: 3] Error : Unexpected character.");
}

#[test]
fn render_with_context_and_long_line_number() {
    let diagnostic = Diagnostic {
        line: 1204,
        context: " at 'x'".to_string(),
        message: "Bad.".to_string(),
    };
    assert_eq!(diagnostic.render(), "[line: 1204] Error  at 'x': Bad.");
    let zero = Diagnostic { line: 0, context: String::new(), message: String::new() };
    assert_eq!(zero.render(), "[line: 0] Error : ");
    let ten = Diagnostic { line: 10, context: String::new(), message: "m".to_string() };
    assert_eq!(ten.render(), "[line: 10] Error : m");
    let largest = Diagnostic { line: usize::MAX, context: String::new(), message: String::new() };
    assert_eq!(largest.render(), format!("[line: {}] Error {}: {}", usize::MAX, "", ""));
}

#[test]
fn render_of_what_a_scan_reports() {
    let (_, sink) = scan("\n\n\"open\n@");
    let lines: Vec<String> = sink.diagnostics().iter().map(|d| d.render()).collect();
    assert_eq!(lines, vec!["[line: 3] Error : Unterminated string.".to_string()]);
    let (_, sink) = scan("1\n2 $\n99999999999");
    let lines: Vec<String> = sink.diagnostics().iter().map(|d| d.render()).collect();
    assert_eq!(
        lines,
        vec![
            "[line: 2] Error : Unexpected character.".to_string(),
            "[line: 3] Error : Number out of range.".to_string(),
        ]
    );
}

#[test]
fn diagnostic_clone_is_equal() {
    let diagnostic = Diagnostic { line: 9, context: "c".to_string(), message: "m".to_string() };
    assert_eq!(diagnostic.clone(), diagnostic);
}
