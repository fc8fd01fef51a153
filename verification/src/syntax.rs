//! Errors of the lexer and the parser.

use crate::ast::Span;
use crate::diag::{simple_diagnostic, Diagnostic, DiagnosticView, ErrorKind, Label, LabelView};
use vstd::prelude::*;

verus! {

/// What the parser was looking for where it stopped.
#[derive(Clone, Copy, Debug, PartialEq, Eq, Structural)]
pub enum Expected {
    /// An import or a function, or the end of the input.
    Item,
    Expression,
    Identifier,
    Type,
    Integer,
    String,
    /// `memory` or `global` after the source of an import.
    ImportKind,
    /// The keyword `fn`.
    Function,
    /// The punctuation character.
    Ctrl(char),
    /// The operator `=`.
    Assign,
}

/// What is wrong at the place of a syntax error.
#[derive(Clone, Copy, Debug, PartialEq, Eq, Structural)]
pub enum SyntaxErrorKind {
    /// A character that starts no token.
    InvalidCharacter,
    /// An integer literal above the largest 32-bit signed integer.
    IntegerTooLarge,
    /// A token, or the end of the input, where something else must stand.
    Unexpected(Expected),
    /// An opening parenthesis at `open` whose inside cannot be read and
    /// that is closed nowhere, or only behind a brace that closes more than
    /// was opened.
    Unclosed { open: Span },
}

/// An error at `span`. A span that is empty and lies at the end of the
/// tokens stands for the end of the input.
#[derive(Clone, Copy, Debug, PartialEq, Eq, Structural)]
pub struct SyntaxError {
    pub span: Span,
    pub kind: SyntaxErrorKind,
}

/// `String::push` of the standard library appends the given character to the
/// end of the string.
pub assume_specification[ std::string::String::push ](text: &mut std::string::String, ch: char)
    ensures
        final(text)@ == old(text)@.push(ch),
;

/// A name for what formatting a string slice with `{:?}` gives: the
/// standard library's `Debug` for `str` puts the text between double quotes
/// and escapes the characters in it that need it. It depends on the text
/// alone.
pub uninterp spec fn debug_text(text: Seq<char>) -> Seq<char>;

/// Formats a text with `{:?}`: the call of the standard library's `Debug`
/// for `str`. The contract only gives the result its name; what the text
/// looks like is not stated and not proved.
#[verifier::external_body]
pub(crate) fn quoted(text: &str) -> (r: String)
    ensures
        r@ == debug_text(text@),
{
    format!("{:?}", text)
}

/// How a punctuation character is shown: as itself.
pub open spec fn ctrl_text(c: char) -> Seq<char> {
    seq![c]
}

/// How a punctuation character is shown.
pub fn ctrl_name(c: char) -> (r: String)
    ensures
        r@ == ctrl_text(c),
{
    let mut r = String::new();
    r.push(c);
    assert(r@ =~= seq![c]);
    r
}

impl Expected {
    /// How the expectation is named in a message.
    pub open spec fn text(self) -> Seq<char> {
        match self {
            Expected::Item => "import, export, fn"@,
            Expected::Expression => "expression"@,
            Expected::Identifier => "identifier"@,
            Expected::Type => "i32, i64, f32, f64"@,
            Expected::Integer => "integer"@,
            Expected::String => "string"@,
            Expected::ImportKind => "memory, global"@,
            Expected::Function => "fn"@,
            Expected::Ctrl(c) => ctrl_text(c),
            Expected::Assign => "="@,
        }
    }

    /// How the expectation is named in a message.
    pub fn name(self) -> (r: String)
        ensures
            r@ == self.text(),
    {
        match self {
            Expected::Item => String::from_str("import, export, fn"),
            Expected::Expression => String::from_str("expression"),
            Expected::Identifier => String::from_str("identifier"),
            Expected::Type => String::from_str("i32, i64, f32, f64"),
            Expected::Integer => String::from_str("integer"),
            Expected::String => String::from_str("string"),
            Expected::ImportKind => String::from_str("memory, global"),
            Expected::Function => String::from_str("fn"),
            Expected::Ctrl(c) => ctrl_name(c),
            Expected::Assign => String::from_str("="),
        }
    }
}

/// What was found at the place of an error, for a message: the text
/// itself, or `end of file`.
pub open spec fn found_text(found: Option<Seq<char>>) -> Seq<char> {
    match found {
        Some(text) => text,
        None => "end of file"@,
    }
}

/// The diagnostic for something unexpected at `span`.
pub open spec fn spec_unexpected(span: Span, expected: Seq<char>, found: Option<Seq<char>>)
    -> DiagnosticView {
    DiagnosticView {
        kind: ErrorKind::UnexpectedToken,
        message: (if found is Some {
            "Unexpected token in input"@
        } else {
            "Unexpted end of input"@
        }) + ", expected one of "@ + expected,
        span,
        labels: seq![
            LabelView { span, message: "Unexpected token "@ + found_text(found), primary: true },
        ],
    }
}

/// The diagnostic for a syntax error. `found` is the text at the place of
/// the error; `None` stands for the end of the input.
pub open spec fn spec_syntax_diagnostic(error: SyntaxError, found: Option<Seq<char>>)
    -> DiagnosticView {
    match error.kind {
        SyntaxErrorKind::InvalidCharacter => spec_unexpected(error.span, "token"@, found),
        SyntaxErrorKind::IntegerTooLarge => simple_diagnostic(
            ErrorKind::InvalidLiteral,
            "Integer literal out of range"@,
            error.span,
        ),
        SyntaxErrorKind::Unexpected(expected) => spec_unexpected(
            error.span,
            expected.text(),
            found,
        ),
        SyntaxErrorKind::Unclosed { open } => DiagnosticView {
            kind: ErrorKind::UnclosedDelimiter,
            message: "Unclosed delimiter ("@,
            span: error.span,
            labels: seq![
                LabelView { span: open, message: "Unclosed delimiter ("@, primary: false },
                LabelView {
                    span: error.span,
                    message: "Must be closed before this "@ + found_text(found),
                    primary: true,
                },
            ],
        },
    }
}

fn unexpected(span: Span, expected: &str, found: Option<&str>) -> (d: Diagnostic)
    ensures
        d@ == spec_unexpected(
            span,
            expected@,
            match found {
                Some(text) => Some(text@),
                None => None,
            },
        ),
{
    let mut message = match found {
        Some(_) => String::from_str("Unexpected token in input"),
        None => String::from_str("Unexpted end of input"),
    };
    message.append(", expected one of ");
    message.append(expected);
    let mut label = String::from_str("Unexpected token ");
    match found {
        Some(text) => {
            label.append(text);
        },
        None => {
            label.append("end of file");
        },
    }
    let mut labels: Vec<Label> = Vec::new();
    labels.push(Label { span, message: label, primary: true });
    let d = Diagnostic { kind: ErrorKind::UnexpectedToken, message, span, labels };
    proof {
        let f = match found {
            Some(text) => Some(text@),
            None => None,
        };
        assert(d@.labels =~= spec_unexpected(span, expected@, f).labels);
    }
    d
}

/// Builds the diagnostic for a syntax error. `found` is the text at the
/// place of the error; `None` stands for the end of the input.
pub fn syntax_diagnostic(error: SyntaxError, found: Option<&str>) -> (d: Diagnostic)
    ensures
        d@ == spec_syntax_diagnostic(
            error,
            match found {
                Some(text) => Some(text@),
                None => None,
            },
        ),
{
    match error.kind {
        SyntaxErrorKind::InvalidCharacter => unexpected(error.span, "token", found),
        SyntaxErrorKind::IntegerTooLarge => crate::diag::simple(
            ErrorKind::InvalidLiteral,
            "Integer literal out of range",
            error.span,
        ),
        SyntaxErrorKind::Unexpected(expected) => unexpected(
            error.span,
            expected.name().as_str(),
            found,
        ),
        SyntaxErrorKind::Unclosed { open } => {
            let mut label = String::from_str("Must be closed before this ");
            match found {
                Some(text) => {
                    label.append(text);
                },
                None => {
                    label.append("end of file");
                },
            }
            let mut labels: Vec<Label> = Vec::new();
            labels.push(
                Label {
                    span: open,
                    message: String::from_str("Unclosed delimiter ("),
                    primary: false,
                },
            );
            labels.push(Label { span: error.span, message: label, primary: true });
            let d = Diagnostic {
                kind: ErrorKind::UnclosedDelimiter,
                message: String::from_str("Unclosed delimiter ("),
                span: error.span,
                labels,
            };
            proof {
                let f = match found {
                    Some(text) => Some(text@),
                    None => None,
                };
                assert(d@.labels =~= spec_syntax_diagnostic(error, f).labels);
            }
            d
        },
    }
}

/// The text of the source at `span`; `None` for a span that is empty or
/// does not lie within the source.
pub open spec fn source_text(source: Seq<char>, span: Span) -> Option<Seq<char>> {
    if span.start < span.end <= source.len() {
        Some(source.subrange(span.start as int, span.end as int))
    } else {
        None
    }
}

/// Builds the diagnostics for syntax errors, in their order. What was
/// found at the place of an error is taken from the source.
pub fn report_errors(errors: &Vec<SyntaxError>, source: &str) -> (r: Vec<Diagnostic>)
    ensures
        r@.len() == errors@.len(),
        forall|i: int|
            0 <= i < errors@.len() ==> (#[trigger] r@[i])@ == spec_syntax_diagnostic(
                errors@[i],
                source_text(source@, errors@[i].span),
            ),
{
    let n = source.unicode_len();
    let mut r: Vec<Diagnostic> = Vec::new();
    let mut i: usize = 0;
    while i < errors.len()
        invariant
            n == source@.len(),
            i <= errors@.len(),
            r@.len() == i,
            forall|j: int|
                0 <= j < i ==> (#[trigger] r@[j])@ == spec_syntax_diagnostic(
                    errors@[j],
                    source_text(source@, errors@[j].span),
                ),
        decreases errors.len() - i,
    {
        let error = errors[i];
        let d = if error.span.start < error.span.end && error.span.end <= n {
            syntax_diagnostic(
                error,
                Some(source.substring_char(error.span.start, error.span.end)),
            )
        } else {
            syntax_diagnostic(error, None)
        };
        r.push(d);
        i += 1;
    }
    r
}

} // verus!
