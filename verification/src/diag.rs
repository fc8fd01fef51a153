//! Diagnostic payloads: an error kind, a message, a primary span and labelled
//! spans. Rendering them is left to the caller.

use crate::ast::{Signature, SignatureView, Span, Type};
use vstd::prelude::*;

verus! {

/// What kind of problem a diagnostic reports.
#[derive(Clone, Copy, Debug, PartialEq, Eq, Structural)]
pub enum ErrorKind {
    DuplicateDefinition,
    TypeMismatch,
    MissingTypeAnnotation,
    ExpectedValue,
    UnknownIdentifier,
    ImmutableAssignment,
    UnresolvedLabel,
    NoMatchingOverload,
    InvalidConstant,
    InvalidStartFunction,
    /// A token, a character or the end of the input where something else
    /// must stand.
    UnexpectedToken,
    /// A parenthesis that is not closed.
    UnclosedDelimiter,
    /// A literal whose value cannot be held.
    InvalidLiteral,
}

/// A span with a message of its own. `primary` marks the place of the error
/// itself, as opposed to a place that only explains it.
#[derive(Clone, Debug, PartialEq)]
pub struct Label {
    pub span: Span,
    pub message: String,
    pub primary: bool,
}

/// A problem in the source: its kind, a message, the place it is about,
/// and labelled places that show or explain it.
#[derive(Clone, Debug, PartialEq)]
pub struct Diagnostic {
    pub kind: ErrorKind,
    pub message: String,
    pub span: Span,
    pub labels: Vec<Label>,
}

/// What a label stands for in contracts.
pub ghost struct LabelView {
    pub span: Span,
    pub message: Seq<char>,
    pub primary: bool,
}

/// What a diagnostic stands for in contracts.
pub ghost struct DiagnosticView {
    pub kind: ErrorKind,
    pub message: Seq<char>,
    pub span: Span,
    pub labels: Seq<LabelView>,
}

impl View for Label {
    type V = LabelView;

    open spec fn view(&self) -> LabelView {
        LabelView { span: self.span, message: self.message@, primary: self.primary }
    }
}

impl View for Diagnostic {
    type V = DiagnosticView;

    open spec fn view(&self) -> DiagnosticView {
        DiagnosticView {
            kind: self.kind,
            message: self.message@,
            span: self.span,
            labels: Seq::new(self.labels@.len(), |i: int| self.labels@[i]@),
        }
    }
}

/// The views of a sequence of diagnostics, element by element.
pub open spec fn diagnostic_views(s: Seq<Diagnostic>) -> Seq<DiagnosticView> {
    Seq::new(s.len(), |i: int| s[i]@)
}

/// What was defined twice.
#[derive(Clone, Copy, Debug, PartialEq, Eq, Structural)]
pub enum Definition {
    Global,
    Function,
    Variable,
    StartFunction,
}

impl Definition {
    /// The message for a second definition.
    pub open spec fn message(self) -> Seq<char> {
        match self {
            Definition::Global => "Global already defined"@,
            Definition::Function => "Function already defined"@,
            Definition::Variable => "Variable already defined"@,
            Definition::StartFunction => "Start function already defined"@,
        }
    }

    /// The kind of the diagnostic for a second definition.
    pub open spec fn kind(self) -> ErrorKind {
        match self {
            Definition::StartFunction => ErrorKind::InvalidStartFunction,
            _ => ErrorKind::DuplicateDefinition,
        }
    }

    fn text(self) -> (s: &'static str)
        ensures
            s@ == self.message(),
    {
        match self {
            Definition::Global => "Global already defined",
            Definition::Function => "Function already defined",
            Definition::Variable => "Variable already defined",
            Definition::StartFunction => "Start function already defined",
        }
    }
}

/// A diagnostic with one primary label that repeats the message.
pub open spec fn simple_diagnostic(kind: ErrorKind, message: Seq<char>, span: Span)
    -> DiagnosticView {
    DiagnosticView {
        kind,
        message,
        span,
        labels: seq![LabelView { span, message, primary: true }],
    }
}

/// Builds a diagnostic with one primary label that repeats the message.
pub fn simple(kind: ErrorKind, message: &str, span: Span) -> (d: Diagnostic)
    ensures
        d@ == simple_diagnostic(kind, message@, span),
{
    let mut labels: Vec<Label> = Vec::new();
    labels.push(Label { span, message: String::from_str(message), primary: true });
    let d = Diagnostic { kind, message: String::from_str(message), span, labels };
    assert(d@.labels =~= seq![LabelView { span, message: message@, primary: true }]);
    d
}

/// The diagnostic for a definition at `span` of what `prev_span` defines
/// already.
pub open spec fn spec_duplicate_definition(what: Definition, span: Span, prev_span: Span)
    -> DiagnosticView {
    DiagnosticView {
        kind: what.kind(),
        message: what.message(),
        span,
        labels: seq![
            LabelView { span, message: what.message(), primary: true },
            LabelView {
                span: prev_span,
                message: "Previous definition was here"@,
                primary: false,
            },
        ],
    }
}

/// A name was defined at `span` although `prev_span` defines it already.
pub fn report_duplicate_definition(what: Definition, span: Span, prev_span: Span) -> (d:
    Diagnostic)
    ensures
        d@ == spec_duplicate_definition(what, span, prev_span),
{
    let mut labels: Vec<Label> = Vec::new();
    labels.push(Label { span, message: String::from_str(what.text()), primary: true });
    labels.push(
        Label {
            span: prev_span,
            message: String::from_str("Previous definition was here"),
            primary: false,
        },
    );
    let kind = match what {
        Definition::StartFunction => ErrorKind::InvalidStartFunction,
        _ => ErrorKind::DuplicateDefinition,
    };
    let d = Diagnostic { kind, message: String::from_str(what.text()), span, labels };
    assert(d@.labels =~= spec_duplicate_definition(what, span, prev_span).labels);
    d
}

/// The name of a type as diagnostics about mismatches print it; `void`
/// stands for no value.
pub open spec fn type_label(t: Option<Type>) -> Seq<char> {
    match t {
        Some(Type::I32) => "I32"@,
        Some(Type::I64) => "I64"@,
        Some(Type::F32) => "F32"@,
        Some(Type::F64) => "F64"@,
        None => "void"@,
    }
}

fn type_label_text(t: Option<Type>) -> (s: &'static str)
    ensures
        s@ == type_label(t),
{
    match t {
        Some(Type::I32) => "I32",
        Some(Type::I64) => "I64",
        Some(Type::F32) => "F32",
        Some(Type::F64) => "F64",
        None => "void",
    }
}

/// The name of a type as source text writes it.
pub open spec fn source_name(t: Type) -> Seq<char> {
    match t {
        Type::I32 => "i32"@,
        Type::I64 => "i64"@,
        Type::F32 => "f32"@,
        Type::F64 => "f64"@,
    }
}

fn source_name_text(t: Type) -> (s: &'static str)
    ensures
        s@ == source_name(t),
{
    match t {
        Type::I32 => "i32",
        Type::I64 => "i64",
        Type::F32 => "f32",
        Type::F64 => "f64",
    }
}

/// The diagnostic for an expression at `span2` of type `type2` where the
/// place `span1` asks for `type1`.
pub open spec fn spec_type_mismatch(
    type1: Option<Type>,
    span1: Span,
    type2: Option<Type>,
    span2: Span,
) -> DiagnosticView {
    DiagnosticView {
        kind: ErrorKind::TypeMismatch,
        message: "Type mismatch"@,
        span: span2,
        labels: seq![
            LabelView {
                span: span1,
                message: "Expected type \""@ + type_label(type1) + "\"..."@,
                primary: false,
            },
            LabelView {
                span: span2,
                message: "...but found type "@ + type_label(type2),
                primary: true,
            },
        ],
    }
}

/// `type1` was expected because of what stands at `span1`, but the
/// expression at `span2` has `type2`.
pub fn type_mismatch(type1: Option<Type>, span1: Span, type2: Option<Type>, span2: Span) -> (d:
    Diagnostic)
    ensures
        d@ == spec_type_mismatch(type1, span1, type2, span2),
{
    let mut expected = String::from_str("Expected type \"");
    expected.append(type_label_text(type1));
    expected.append("\"...");
    let mut found = String::from_str("...but found type ");
    found.append(type_label_text(type2));
    let mut labels: Vec<Label> = Vec::new();
    labels.push(Label { span: span1, message: expected, primary: false });
    labels.push(Label { span: span2, message: found, primary: true });
    let d = Diagnostic {
        kind: ErrorKind::TypeMismatch,
        message: String::from_str("Type mismatch"),
        span: span2,
        labels,
    };
    assert(d@.labels =~= spec_type_mismatch(type1, span1, type2, span2).labels);
    d
}

/// The diagnostic for an expression without a value where one is needed.
pub open spec fn spec_expected_type(span: Span) -> DiagnosticView {
    simple_diagnostic(
        ErrorKind::ExpectedValue,
        "Expected value but found expression of type void"@,
        span,
    )
}

/// The expression at `span` has no value where one is needed.
pub fn expected_type(span: Span) -> (d: Diagnostic)
    ensures
        d@ == spec_expected_type(span),
{
    simple(ErrorKind::ExpectedValue, "Expected value but found expression of type void", span)
}

/// The diagnostic for a name that stands for no variable.
pub open spec fn spec_unknown_variable(span: Span) -> DiagnosticView {
    simple_diagnostic(ErrorKind::UnknownIdentifier, "Unknown variable"@, span)
}

/// The name at `span` is neither a local in scope nor a global.
pub fn unknown_variable(span: Span) -> (d: Diagnostic)
    ensures
        d@ == spec_unknown_variable(span),
{
    simple(ErrorKind::UnknownIdentifier, "Unknown variable", span)
}

/// The diagnostic for a write to something that cannot be written.
pub open spec fn spec_immutable_assign(span: Span) -> DiagnosticView {
    simple_diagnostic(
        ErrorKind::ImmutableAssignment,
        "Trying to assign to immutable variable"@,
        span,
    )
}

/// The assignment at `span` writes to an inline local or a constant global.
pub fn immutable_assign(span: Span) -> (d: Diagnostic)
    ensures
        d@ == spec_immutable_assign(span),
{
    simple(ErrorKind::ImmutableAssignment, "Trying to assign to immutable variable", span)
}

/// The diagnostic for a branch to a label that is not open.
pub open spec fn spec_missing_label(span: Span) -> DiagnosticView {
    simple_diagnostic(ErrorKind::UnresolvedLabel, "Label not found"@, span)
}

/// The branch at `span` names no enclosing loop or labelled block.
pub fn missing_label(span: Span) -> (d: Diagnostic)
    ensures
        d@ == spec_missing_label(span),
{
    simple(ErrorKind::UnresolvedLabel, "Label not found", span)
}

/// The diagnostic for a `let` without a type and without a value.
pub open spec fn spec_missing_type(span: Span) -> DiagnosticView {
    simple_diagnostic(ErrorKind::MissingTypeAnnotation, "Type missing"@, span)
}

/// The `let` at `span` has neither a type nor a value to take one from.
pub fn missing_type(span: Span) -> (d: Diagnostic)
    ensures
        d@ == spec_missing_type(span),
{
    simple(ErrorKind::MissingTypeAnnotation, "Type missing", span)
}

/// The diagnostic for an expression that is no literal where a constant is
/// needed.
pub open spec fn spec_expected_constant(span: Span) -> DiagnosticView {
    simple_diagnostic(ErrorKind::InvalidConstant, "Expected constant value"@, span)
}

/// The expression at `span` is no literal where a constant is needed.
pub fn expected_constant(span: Span) -> (d: Diagnostic)
    ensures
        d@ == spec_expected_constant(span),
{
    simple(ErrorKind::InvalidConstant, "Expected constant value", span)
}

/// The diagnostic for a start function with parameters or a result.
pub open spec fn spec_invalid_start(span: Span) -> DiagnosticView {
    simple_diagnostic(
        ErrorKind::InvalidStartFunction,
        "Start function can't have params or a return value"@,
        span,
    )
}

/// The start function at `span` takes parameters or returns a value.
pub fn invalid_start(span: Span) -> (d: Diagnostic)
    ensures
        d@ == spec_invalid_start(span),
{
    simple(
        ErrorKind::InvalidStartFunction,
        "Start function can't have params or a return value",
        span,
    )
}

/// The diagnostic for a call of a name that stands for no function.
pub open spec fn spec_unknown_function(name: Seq<char>, span: Span) -> DiagnosticView {
    simple_diagnostic(ErrorKind::UnknownIdentifier, "Unknown function "@ + name, span)
}

/// The call at `span` names neither a function of the script nor a built-in.
pub fn unknown_function(name: &str, span: Span) -> (d: Diagnostic)
    ensures
        d@ == spec_unknown_function(name@, span),
{
    let mut message = String::from_str("Unknown function ");
    message.append(name);
    simple(ErrorKind::UnknownIdentifier, message.as_str(), span)
}

/// The first `n` parameter types, separated by a comma and a space.
pub open spec fn joined_types(params: Seq<Type>, n: nat) -> Seq<char>
    decreases n,
{
    if n == 0 {
        Seq::empty()
    } else if n == 1 {
        source_name(params[0])
    } else {
        joined_types(params, (n - 1) as nat) + ", "@ + source_name(params[n - 1])
    }
}

/// How a candidate is shown: `Found name(t1, t2) -> r`, without the arrow
/// for a candidate that returns nothing.
pub open spec fn candidate_text(name: Seq<char>, sig: SignatureView) -> Seq<char> {
    "Found "@ + name + "("@ + joined_types(sig.params, sig.params.len()) + ")"@ + match sig.result {
        Some(t) => " -> "@ + source_name(t),
        None => Seq::empty(),
    }
}

/// Renders one candidate signature of `name`.
pub fn candidate_message(name: &str, sig: &Signature) -> (s: String)
    ensures
        s@ == candidate_text(name@, sig@),
{
    let mut s = String::from_str("Found ");
    s.append(name);
    s.append("(");
    let ghost prefix = s@;
    let mut i: usize = 0;
    while i < sig.params.len()
        invariant
            i <= sig.params.len(),
            s@ == prefix + joined_types(sig.params@, i as nat),
        decreases sig.params.len() - i,
    {
        if i > 0 {
            s.append(", ");
        }
        s.append(source_name_text(sig.params[i]));
        i += 1;
        proof {
            assert(s@ =~= prefix + joined_types(sig.params@, i as nat));
        }
    }
    s.append(")");
    match sig.result {
        Some(t) => {
            s.append(" -> ");
            s.append(source_name_text(t));
        },
        None => {},
    }
    proof {
        assert(s@ =~= candidate_text(name@, sig@));
    }
    s
}

/// The diagnostic for a call whose argument types no candidate takes: one
/// label for each candidate, in their order.
pub open spec fn spec_no_matching_function(
    name: Seq<char>,
    candidates: Seq<SignatureView>,
    span: Span,
) -> DiagnosticView {
    DiagnosticView {
        kind: ErrorKind::NoMatchingOverload,
        message: "No matching function found"@,
        span,
        labels: Seq::new(
            candidates.len(),
            |i: int| LabelView { span, message: candidate_text(name, candidates[i]), primary: false },
        ),
    }
}

/// No candidate of `name` takes the argument types of the call at `span`;
/// the diagnostic has one label for each candidate, in their order.
pub fn no_matching_function(name: &str, candidates: &Vec<Signature>, span: Span) -> (d:
    Diagnostic)
    ensures
        d@ == spec_no_matching_function(name@, crate::ast::signature_views(candidates@), span),
{
    let mut labels: Vec<Label> = Vec::new();
    let mut i: usize = 0;
    while i < candidates.len()
        invariant
            i <= candidates.len(),
            labels@.len() == i,
            forall|j: int|
                0 <= j < i ==> (#[trigger] labels@[j])@ == (LabelView {
                    span,
                    message: candidate_text(name@, candidates@[j]@),
                    primary: false,
                }),
        decreases candidates.len() - i,
    {
        let message = candidate_message(name, &candidates[i]);
        labels.push(Label { span, message, primary: false });
        i += 1;
    }
    let d = Diagnostic {
        kind: ErrorKind::NoMatchingOverload,
        message: String::from_str("No matching function found"),
        span,
        labels,
    };
    assert(d@.labels =~= spec_no_matching_function(
        name@,
        crate::ast::signature_views(candidates@),
        span,
    ).labels);
    d
}

} // verus!
