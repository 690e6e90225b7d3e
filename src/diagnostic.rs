//! Structured diagnostics: what the parser expected, what it found, and where.
use vstd::prelude::*;
use codespan::FileId;
use crate::lexer::{Literal, Span};
use crate::tokens::TokenKind;

verus! {

/// The handle of a source file, as the file registry hands it out.
#[verifier::external_type_specification]
#[verifier::external_body]
pub struct ExFileId(FileId);

/// What went wrong at a diagnostic's span.
#[derive(Clone, Copy, Debug, PartialEq, Eq, Structural)]
pub enum DiagnosticKind {
    /// A token of kind `expected` was required, and `found` stood there instead.
    UnexpectedToken { expected: TokenKind, found: TokenKind },
    /// An expression was required, and a token of kind `found` stood there.
    ExpectedExpression { found: TokenKind },
    /// The text of a literal token does not denote a value of its kind.
    InvalidLiteral { kind: Literal },
    /// A token's span does not denote text of the source.
    SpanOutsideSource,
}

/// An error found by the parser: always of severity error, with a primary
/// label on the offending token's span in the file `file_id`.
#[derive(Clone, Copy, Debug)]
pub struct Diagnostic {
    pub file_id: FileId,
    pub span: Span,
    pub kind: DiagnosticKind,
}

} // verus!
