//! The diagnostics sink: an accumulating collection of message/span
//! records, written by the parser and the resolver.  Every reporting
//! method states exactly which record it appends.

use vstd::prelude::*;
use vstd::string::StringExecFns;
use crate::lexer::{TextSpan, Token, TokenKind, SpanView, TokenView, spec_kind_text};
use crate::text::{decimal_string, spec_decimal};

verus! {

/// How severe a diagnostic is.
#[derive(Debug, Clone, Copy, PartialEq, Eq, Structural)]
pub enum DiagnosticKind {
    Error,
    Warning,
}

/// A message tied to the span of source text it is about.
#[derive(Debug)]
pub struct Diagnostic {
    pub message: String,
    pub kind: DiagnosticKind,
    pub span: TextSpan,
}

/// The mathematical value of a `Diagnostic`.
pub ghost struct DiagnosticView {
    pub message: Seq<char>,
    pub kind: DiagnosticKind,
    pub span: SpanView,
}

impl View for Diagnostic {
    type V = DiagnosticView;

    open spec fn view(&self) -> DiagnosticView {
        DiagnosticView { message: self.message@, kind: self.kind, span: self.span@ }
    }
}

impl Diagnostic {
    pub fn new(message: String, kind: DiagnosticKind, span: TextSpan) -> (r: Diagnostic)
        ensures
            r@ == (DiagnosticView { message: message@, kind, span: span@ }),
    {
        Diagnostic { message, kind, span }
    }
}

/// An error about a token of an unexpected kind.
pub open spec fn spec_unexpected_token(expected: TokenKind, found: TokenView) -> DiagnosticView {
    DiagnosticView {
        message: "Expected <"@ + spec_kind_text(expected) + ">, but found <"@
            + spec_kind_text(found.kind) + ">"@,
        kind: DiagnosticKind::Error,
        span: found.span,
    }
}

/// An error about a token where an expression should begin.
pub open spec fn spec_expected_expression(found: TokenView) -> DiagnosticView {
    DiagnosticView {
        message: "Expected expression, but found <"@ + spec_kind_text(found.kind) + ">"@,
        kind: DiagnosticKind::Error,
        span: found.span,
    }
}

/// An error about a name that no enclosing scope declares.
pub open spec fn spec_undefined_variable(span: SpanView) -> DiagnosticView {
    DiagnosticView {
        message: "Not found in this scope"@,
        kind: DiagnosticKind::Error,
        span,
    }
}

/// An error about an identifier that is not declared at all.
pub open spec fn spec_undefined_identifier(span: SpanView) -> DiagnosticView {
    DiagnosticView {
        message: "No identifier named '"@ + span.literal + "' in scope"@,
        kind: DiagnosticKind::Error,
        span,
    }
}

/// An error about calling something that is not a function.
pub open spec fn spec_not_a_callable(span: SpanView) -> DiagnosticView {
    DiagnosticView {
        message: "Identifier '"@ + span.literal + "' is not callable"@,
        kind: DiagnosticKind::Error,
        span,
    }
}

/// An error about a value of the wrong type.
pub open spec fn spec_type_mismatch(
    span: SpanView,
    found_type: Seq<char>,
    expected_type: Seq<char>,
) -> DiagnosticView {
    DiagnosticView {
        message: "Type mismatch. Expected <"@ + expected_type + ">, but found <"@ + found_type
            + ">"@,
        kind: DiagnosticKind::Error,
        span,
    }
}

/// An error about a call whose argument count does not match the
/// function's parameter count.
pub open spec fn spec_arity_mismatch(span: SpanView, expected: nat, found: nat) -> DiagnosticView {
    DiagnosticView {
        message: "Function "@ + span.literal + " expects "@ + spec_decimal(expected)
            + " arguments but "@ + spec_decimal(found) + " were given"@,
        kind: DiagnosticKind::Error,
        span,
    }
}

/// The accumulating diagnostics sink.
#[derive(Debug)]
pub struct DiagnosticsColletion {
    pub diagnostics: Vec<Diagnostic>,
}

impl View for DiagnosticsColletion {
    type V = Seq<DiagnosticView>;

    open spec fn view(&self) -> Seq<DiagnosticView> {
        self.diagnostics@.map(|i: int, d: Diagnostic| d@)
    }
}

impl DiagnosticsColletion {
    pub fn new() -> (r: DiagnosticsColletion)
        ensures
            r@ == Seq::<DiagnosticView>::empty(),
    {
        let r = DiagnosticsColletion { diagnostics: Vec::new() };
        proof {
            assert(r@ =~= Seq::<DiagnosticView>::empty());
        }
        r
    }

    /// The number of accumulated diagnostics.
    pub fn len(&self) -> (n: usize)
        ensures
            n == self@.len(),
    {
        self.diagnostics.len()
    }

    pub fn clear(&mut self)
        ensures
            final(self)@ == Seq::<DiagnosticView>::empty(),
    {
        self.diagnostics.clear();
        proof {
            assert(self@ =~= Seq::<DiagnosticView>::empty());
        }
    }

    pub fn report_error(&mut self, message: String, span: TextSpan)
        ensures
            final(self)@ == old(self)@.push(DiagnosticView {
                message: message@,
                kind: DiagnosticKind::Error,
                span: span@,
            }),
    {
        let ghost d = DiagnosticView {
            message: message@,
            kind: DiagnosticKind::Error,
            span: span@,
        };
        self.diagnostics.push(Diagnostic::new(message, DiagnosticKind::Error, span));
        proof {
            assert(self@ =~= old(self)@.push(d));
        }
    }

    pub fn report_warning(&mut self, message: String, span: TextSpan)
        ensures
            final(self)@ == old(self)@.push(DiagnosticView {
                message: message@,
                kind: DiagnosticKind::Warning,
                span: span@,
            }),
    {
        let ghost d = DiagnosticView {
            message: message@,
            kind: DiagnosticKind::Warning,
            span: span@,
        };
        self.diagnostics.push(Diagnostic::new(message, DiagnosticKind::Warning, span));
        proof {
            assert(self@ =~= old(self)@.push(d));
        }
    }

    pub fn report_unexpected_token(&mut self, expected_tokenkind: &TokenKind, found_token: &Token)
        ensures
            final(self)@ == old(self)@.push(
                spec_unexpected_token(*expected_tokenkind, found_token@),
            ),
    {
        let mut message = "Expected <".to_owned();
        message.append(expected_tokenkind.text());
        message.append(">, but found <");
        message.append(found_token.kind.text());
        message.append(">");
        self.report_error(message, found_token.span.duplicate());
    }

    pub fn report_expected_expression(&mut self, found_token: &Token)
        ensures
            final(self)@ == old(self)@.push(spec_expected_expression(found_token@)),
    {
        let mut message = "Expected expression, but found <".to_owned();
        message.append(found_token.kind.text());
        message.append(">");
        self.report_error(message, found_token.span.duplicate());
    }

    pub fn report_undefined_variable(&mut self, span: TextSpan)
        ensures
            final(self)@ == old(self)@.push(spec_undefined_variable(span@)),
    {
        self.report_error("Not found in this scope".to_owned(), span);
    }

    pub fn report_undefined_identifier(&mut self, span: TextSpan)
        ensures
            final(self)@ == old(self)@.push(spec_undefined_identifier(span@)),
    {
        let mut message = "No identifier named '".to_owned();
        message.append(span.literal.as_str());
        message.append("' in scope");
        self.report_error(message, span);
    }

    pub fn report_not_a_callable(&mut self, span: TextSpan)
        ensures
            final(self)@ == old(self)@.push(spec_not_a_callable(span@)),
    {
        let mut message = "Identifier '".to_owned();
        message.append(span.literal.as_str());
        message.append("' is not callable");
        self.report_error(message, span);
    }

    pub fn report_type_mismatch(&mut self, span: TextSpan, found_type: String, expected_type: String)
        ensures
            final(self)@ == old(self)@.push(
                spec_type_mismatch(span@, found_type@, expected_type@),
            ),
    {
        let mut message = "Type mismatch. Expected <".to_owned();
        message.append(expected_type.as_str());
        message.append(">, but found <");
        message.append(found_type.as_str());
        message.append(">");
        self.report_error(message, span);
    }

    pub fn report_number_of_function_arguments_mismatch(
        &mut self,
        span: TextSpan,
        expected: usize,
        found: usize,
    )
        ensures
            final(self)@ == old(self)@.push(
                spec_arity_mismatch(span@, expected as nat, found as nat),
            ),
    {
        let mut message = "Function ".to_owned();
        message.append(span.literal.as_str());
        message.append(" expects ");
        let e = decimal_string(expected);
        message.append(e.as_str());
        message.append(" arguments but ");
        let f = decimal_string(found);
        message.append(f.as_str());
        message.append(" were given");
        self.report_error(message, span);
    }
}

} // verus!
