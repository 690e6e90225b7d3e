//! Source-to-syntax-tree front end of the Propane language: a scanner that
//! turns text into span-tagged tokens, a filter that hides trivia, and a
//! recursive-descent parser that builds statements or reports diagnostics.
use vstd::prelude::*;

pub mod text;
pub mod lexer;
pub mod scanner;
pub mod scan_laws;
pub mod tokens;
pub mod diagnostic;
pub mod expression;
pub mod grammar;
pub mod parser;

use codespan::FileId;
use crate::grammar::{spec_parse, ParseInput};
use crate::lexer::LexerToken;
use crate::parser::{outcome, ParseResult};
use crate::tokens::{filter_tokens, spec_filter};

pub use crate::lexer::tokenize;

verus! {

/// Parses the scanner stream `tokens` of `src`: trivia are filtered out, then
/// the statements are parsed; diagnostics name `file_id`.
pub fn parse(file_id: FileId, src: &str, tokens: &[LexerToken]) -> (r: ParseResult)
    ensures
        outcome(r) == spec_parse(ParseInput { tokens: spec_filter(tokens@), src: src@, file_id }),
{
    let filtered = filter_tokens(tokens);
    parser::parse(file_id, src, filtered.as_slice())
}

} // verus!
