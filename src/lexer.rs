//! The scanner's token vocabulary and its entry point.
use vstd::prelude::*;
use crate::scanner::{scan, spec_scan};

verus! {

/// A half-open byte range `[start, end)` into a source buffer.
#[derive(Clone, Copy, Debug, PartialEq, Eq, Structural)]
pub struct Span {
    pub start: usize,
    pub end: usize,
}

/// A token kind together with the bytes of the source that it covers.
#[derive(Clone, Copy, Debug, PartialEq, Eq, Structural)]
pub struct Token<K> {
    pub kind: K,
    pub span: Span,
}

/// A token as the scanner produces it, trivia included.
pub type LexerToken = Token<TokenKind>;

/// The kinds of literal that the scanner recognises.
#[derive(Clone, Copy, Debug, PartialEq, Eq, Structural)]
pub enum Literal {
    /// A run of decimal digits: `12`.
    Int,
    /// Decimal digits with a fractional part: `12.5`.
    Float,
    /// `true` or `false`.
    Bool,
    /// A character literal such as `'a'`.
    Char { terminated: bool },
    /// A string literal such as `"abc"`; an unterminated one runs to the end of input.
    Str { terminated: bool },
}

/// Every kind of token the scanner can produce.
#[derive(Clone, Copy, Debug, PartialEq, Eq, Structural)]
pub enum TokenKind {
    /// `// comment`, up to but excluding the end of the line.
    LineComment,
    /// `/* comment */`; such comments nest, and an unclosed one runs to the end of input.
    BlockComment { terminated: bool },
    /// A run of pattern whitespace.
    Whitespace,
    /// A user defined identifier.
    Ident,
    /// An identifier holding characters that are not allowed in one.
    InvalidIdent,
    Let,
    If,
    Else,
    For,
    Fun,
    Return,
    While,
    /// A literal; its value is read later from the text its span denotes.
    Literal { kind: Literal },
    BangEq,
    EqEq,
    GtEq,
    LtEq,
    Semi,
    Comma,
    Dot,
    OpenParen,
    CloseParen,
    OpenBrace,
    CloseBrace,
    OpenBracket,
    CloseBracket,
    At,
    Pound,
    Tilde,
    Question,
    Colon,
    Dollar,
    Eq,
    Bang,
    Lt,
    Gt,
    Minus,
    And,
    Or,
    Plus,
    Star,
    Slash,
    Caret,
    Percent,
    /// A character that starts no token, such as `№`.
    Unknown,
    /// End of input.
    Eof,
}

/// Scans `src` into its full token stream, trivia included, ending with `Eof`.
pub fn tokenize(src: &str) -> (r: Vec<LexerToken>)
    ensures
        r@ == spec_scan(src@),
{
    scan(src)
}

} // verus!
