//! Diagnostics: the kinds of lexical error, the line-tagged messages that
//! report them, and the sink that collects the messages.

use vstd::prelude::*;
use vstd::string::StringExecFns;
use crate::numeral::{decimal_digits, push_decimal};
use crate::text::string_of;

verus! {

/// The kinds of lexical error. Every one of them is recoverable.
#[derive(Debug, Clone, Copy, PartialEq, Eq, Hash, Structural)]
pub enum ScanError {
    /// A character that begins no token.
    UnexpectedCharacter,
    /// A string literal whose closing quote is missing.
    UnterminatedString,
    /// A block comment whose end is missing. No rule of the scanner raises
    /// it: the language has line comments only.
    UnterminatedComment,
    /// An integer literal that a signed 32-bit integer cannot hold.
    NumberOverflow,
}

impl ScanError {
    /// The message that reports an error of this kind.
    pub open spec fn text(self) -> Seq<char> {
        match self {
            ScanError::UnexpectedCharacter => "Unexpected character."@,
            ScanError::UnterminatedString => "Unterminated string."@,
            ScanError::UnterminatedComment => "Unterminated comment."@,
            ScanError::NumberOverflow => "Number out of range."@,
        }
    }

    /// The message that reports an error of this kind.
    pub fn message(&self) -> (message: &'static str)
        ensures
            message@ == self.text(),
    {
        match self {
            ScanError::UnexpectedCharacter => "Unexpected character.",
            ScanError::UnterminatedString => "Unterminated string.",
            ScanError::UnterminatedComment => "Unterminated comment.",
            ScanError::NumberOverflow => "Number out of range.",
        }
    }
}

/// One reported error: where, in what context, and what.
#[derive(Debug, PartialEq, Eq)]
pub struct Diagnostic {
    pub line: usize,
    /// Where on the line the error was found; empty for lexical errors.
    pub context: String,
    pub message: String,
}

/// The mathematical value of a [`Diagnostic`].
pub struct DiagnosticView {
    pub line: nat,
    pub context: Seq<char>,
    pub message: Seq<char>,
}

impl DiagnosticView {
    /// The diagnostic of a lexical error of kind `error` found on `line`.
    pub open spec fn lexical(line: nat, error: ScanError) -> DiagnosticView {
        DiagnosticView { line, context: Seq::empty(), message: error.text() }
    }

    /// The line of text that shows the diagnostic to a reader:
    /// `[line: L] Error C: M` for line `L`, context `C` and message `M`.
    pub open spec fn rendered(self) -> Seq<char> {
        "[line: "@ + decimal_digits(self.line) + "] Error "@ + self.context + ": "@ + self.message
    }
}

impl View for Diagnostic {
    type V = DiagnosticView;

    open spec fn view(&self) -> DiagnosticView {
        DiagnosticView { line: self.line as nat, context: self.context@, message: self.message@ }
    }
}

impl DeepView for Diagnostic {
    type V = DiagnosticView;

    open spec fn deep_view(&self) -> DiagnosticView {
        self@
    }
}

impl Clone for Diagnostic {
    fn clone(&self) -> (copy: Self)
        ensures
            copy == *self,
    {
        Diagnostic {
            line: self.line,
            context: self.context.clone(),
            message: self.message.clone(),
        }
    }
}

impl Diagnostic {
    /// The line of text that shows the diagnostic to a reader.
    pub fn render(&self) -> (text: String)
        ensures
            text@ == self@.rendered(),
    {
        let mut digits: Vec<char> = Vec::new();
        push_decimal(self.line, &mut digits);
        let number = string_of(digits.as_slice());
        let mut text = String::from_str("[line: ");
        text.append(number.as_str());
        text.append("] Error ");
        text.append(self.context.as_str());
        text.append(": ");
        text.append(self.message.as_str());
        text
    }
}

/// The diagnostic sink: it collects what is reported to it, in order.
///
/// Its value is the sequence of diagnostics reported so far.
pub struct Lox {
    diagnostics: Vec<Diagnostic>,
}

impl View for Lox {
    type V = Seq<DiagnosticView>;

    closed spec fn view(&self) -> Seq<DiagnosticView> {
        self.diagnostics.deep_view()
    }
}

impl Lox {
    /// A sink to which nothing has been reported.
    pub fn new() -> (sink: Lox)
        ensures
            sink@ == Seq::<DiagnosticView>::empty(),
    {
        let sink = Lox { diagnostics: Vec::new() };
        sink
    }

    /// Reports a lexical error: `message`, found on `line`, with no context.
    pub fn error(&mut self, line: usize, message: &str)
        ensures
            final(self)@ == old(self)@.push(
                DiagnosticView { line: line as nat, context: Seq::empty(), message: message@ },
            ),
    {
        self.report(line, String::new(), message);
    }

    /// Reports `message`, found on `line` in the context `on`.
    pub fn report(&mut self, line: usize, on: String, message: &str)
        ensures
            final(self)@ == old(self)@.push(
                DiagnosticView { line: line as nat, context: on@, message: message@ },
            ),
    {
        let diagnostic = Diagnostic { line, context: on, message: String::from_str(message) };
        self.diagnostics.push(diagnostic);
        assert(self.diagnostics.deep_view() =~= old(self).diagnostics.deep_view().push(
            diagnostic@,
        ));
    }

    /// Whether anything has been reported.
    pub fn had_error(&self) -> (flag: bool)
        ensures
            flag == (self@.len() > 0),
    {
        self.diagnostics.len() > 0
    }

    /// What has been reported, in order.
    pub fn diagnostics(&self) -> (reported: &Vec<Diagnostic>)
        ensures
            reported.deep_view() == self@,
    {
        &self.diagnostics
    }
}

} // verus!
