use vstd::prelude::*;

verus! {

/// How serious a reported problem is. `Warning` is informational,
/// `Error` is a recoverable source-level problem, and `Internal`
/// marks a violated implementation invariant.
#[derive(Clone, Copy, Debug, PartialEq, Eq, Structural)]
pub enum DiagnosticSeverity {
    Warning,
    Error,
    Internal,
}

/// A severity-tagged message describing a recoverable or internal failure.
#[derive(Clone, Debug)]
pub struct Diagnostic {
    pub message: String,
    pub severity: DiagnosticSeverity,
}

/// Mathematical image of a `Diagnostic`.
pub struct DiagnosticView {
    pub message: Seq<char>,
    pub severity: DiagnosticSeverity,
}

impl View for Diagnostic {
    type V = DiagnosticView;

    open spec fn view(&self) -> DiagnosticView {
        DiagnosticView { message: self.message@, severity: self.severity }
    }
}

} // verus!
