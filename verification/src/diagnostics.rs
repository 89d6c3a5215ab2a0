//! Diagnostics reported by semantic analysis.
use vstd::prelude::*;

verus! {

/// A source position that a diagnostic or a HIR node points at.
#[derive(Debug, Clone, Copy, PartialEq, Eq, Structural)]
pub struct Span {
    pub line: usize,
    pub column: usize,
}

/// The family a diagnostic belongs to.
#[derive(Debug, Clone, Copy, PartialEq, Eq, Structural)]
pub enum DiagnosticCode {
    Generic,
    DuplicateDeclaration,
    DuplicateImport,
    TypeMismatch,
    UnknownName,
    MemberAccess,
    ArgumentCount,
    AmbiguousOverload,
    ControlFlow,
    /// A value assigned where nothing may be assigned.
    InvalidAssignment,
    /// An array used as one value, or one value indexed.
    Array,
    /// A module used where a value is expected.
    InvalidQualifiedAccess,
}

/// An error found by semantic analysis: what went wrong and where.
#[derive(Debug, Clone)]
pub struct Diagnostic {
    pub code: DiagnosticCode,
    pub message: String,
    pub span: Option<Span>,
    pub help: Option<String>,
    /// A short note shown at the primary location.
    pub label: Option<String>,
}

impl Diagnostic {
    /// A diagnostic with a message and an optional location, and no help text.
    pub fn new(code: DiagnosticCode, message: String, span: Option<Span>) -> (d: Diagnostic)
        ensures
            d.code == code,
            d.message@ == message@,
            d.span == span,
            d.help is None,
            d.label is None,
    {
        Diagnostic { code, message, span, help: None, label: None }
    }

    /// The same diagnostic with a suggestion attached.
    pub fn with_help(self, help: String) -> (d: Diagnostic)
        ensures
            d.code == self.code,
            d.message@ == self.message@,
            d.span == self.span,
            d.help matches Some(h) && h@ == help@,
            d.label == self.label,
    {
        Diagnostic { code: self.code, message: self.message, span: self.span, help: Some(help), label: self.label }
    }

    /// The same diagnostic with a note at its primary location.
    pub fn with_primary_label(self, label: String) -> (d: Diagnostic)
        ensures
            d.code == self.code,
            d.message@ == self.message@,
            d.span == self.span,
            d.help == self.help,
            d.label matches Some(l) && l@ == label@,
    {
        Diagnostic { code: self.code, message: self.message, span: self.span, help: self.help, label: Some(label) }
    }
}

} // verus!
