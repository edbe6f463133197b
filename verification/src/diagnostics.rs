use crate::ids::FileId;
use crate::span::SourceSpan;
use vstd::prelude::*;

verus! {

/// Diagnostic severity.
#[derive(Clone, Copy, Debug, PartialEq, Eq, Structural)]
pub enum Severity {
    Info,
    Warning,
    Error,
}

/// Warning or error produced while indexing a file.
#[derive(Debug)]
pub struct Diagnostic {
    pub severity: Severity,
    pub message: String,
    pub file_id: Option<FileId>,
    pub span: Option<SourceSpan>,
}

/// What a diagnostic holds, as plain values.
pub struct DiagnosticView {
    pub severity: Severity,
    pub message: Seq<char>,
    pub file_id: Option<Seq<char>>,
    pub span: Option<SourceSpan>,
}

impl View for Diagnostic {
    type V = DiagnosticView;

    open spec fn view(&self) -> DiagnosticView {
        DiagnosticView {
            severity: self.severity,
            message: self.message@,
            file_id: match self.file_id {
                Some(f) => Some(f@),
                None => None,
            },
            span: self.span,
        }
    }
}

impl Diagnostic {
    /// Creates a warning diagnostic.
    pub fn warning(message: String, file_id: Option<FileId>, span: Option<SourceSpan>) -> (r: Self)
        ensures
            r.severity == Severity::Warning,
            r.message == message,
            r.file_id == file_id,
            r.span == span,
    {
        Diagnostic { severity: Severity::Warning, message, file_id, span }
    }
}

impl Clone for Diagnostic {
    fn clone(&self) -> (r: Self)
        ensures
            r == *self,
    {
        let file_id = match &self.file_id {
            Some(id) => Some(id.clone()),
            None => None,
        };
        Diagnostic {
            severity: self.severity,
            message: self.message.clone(),
            file_id,
            span: self.span,
        }
    }
}

} // verus!
