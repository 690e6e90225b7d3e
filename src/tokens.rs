//! The parser's token vocabulary and the filter that projects the scanner's
//! stream onto it.
use vstd::prelude::*;
use crate::lexer::{self, LexerToken, Literal, Token};

verus! {

/// The kinds of token that the parser consumes; trivia never appear here.
#[derive(Clone, Copy, Debug, PartialEq, Eq, Structural)]
pub enum TokenKind {
    Ident,
    Let,
    Fun,
    Return,
    Literal { kind: Literal },
    Semi,
    Comma,
    Dot,
    OpenParen,
    CloseParen,
    Eq,
    Bang,
    BangEq,
    EqEq,
    Gt,
    GtEq,
    Lt,
    LtEq,
    Minus,
    Plus,
    Slash,
    Star,
    Eof,
}

/// A token as the parser sees it.
pub type ParserToken = Token<TokenKind>;

/// The parser's kind for a scanner kind, or `None` for trivia and for kinds
/// the grammar does not use.
pub open spec fn spec_from_lexer(kind: lexer::TokenKind) -> Option<TokenKind> {
    match kind {
        lexer::TokenKind::Ident => Some(TokenKind::Ident),
        lexer::TokenKind::Let => Some(TokenKind::Let),
        lexer::TokenKind::Fun => Some(TokenKind::Fun),
        lexer::TokenKind::Return => Some(TokenKind::Return),
        lexer::TokenKind::Literal { kind } => Some(TokenKind::Literal { kind }),
        lexer::TokenKind::Semi => Some(TokenKind::Semi),
        lexer::TokenKind::Comma => Some(TokenKind::Comma),
        lexer::TokenKind::Dot => Some(TokenKind::Dot),
        lexer::TokenKind::OpenParen => Some(TokenKind::OpenParen),
        lexer::TokenKind::CloseParen => Some(TokenKind::CloseParen),
        lexer::TokenKind::Eq => Some(TokenKind::Eq),
        lexer::TokenKind::Bang => Some(TokenKind::Bang),
        lexer::TokenKind::BangEq => Some(TokenKind::BangEq),
        lexer::TokenKind::EqEq => Some(TokenKind::EqEq),
        lexer::TokenKind::Gt => Some(TokenKind::Gt),
        lexer::TokenKind::GtEq => Some(TokenKind::GtEq),
        lexer::TokenKind::Lt => Some(TokenKind::Lt),
        lexer::TokenKind::LtEq => Some(TokenKind::LtEq),
        lexer::TokenKind::Minus => Some(TokenKind::Minus),
        lexer::TokenKind::Plus => Some(TokenKind::Plus),
        lexer::TokenKind::Slash => Some(TokenKind::Slash),
        lexer::TokenKind::Star => Some(TokenKind::Star),
        lexer::TokenKind::Eof => Some(TokenKind::Eof),
        _ => None,
    }
}

/// Whether a scanner kind is trivia.
pub open spec fn is_trivia(kind: lexer::TokenKind) -> bool {
    ||| kind == lexer::TokenKind::Whitespace
    ||| kind == lexer::TokenKind::LineComment
    ||| kind is BlockComment
}

/// The tokens the parser sees of a scanner stream, in order, spans unchanged.
pub open spec fn spec_filter(t: Seq<LexerToken>) -> Seq<ParserToken>
    decreases t.len(),
{
    if t.len() == 0 {
        seq![]
    } else {
        let rest = spec_filter(t.drop_last());
        match spec_from_lexer(t.last().kind) {
            Some(k) => rest.push(Token { kind: k, span: t.last().span }),
            None => rest,
        }
    }
}

impl TokenKind {
    /// The parser's kind for a scanner kind; trivia map to `None`.
    pub fn from_lexer(kind: lexer::TokenKind) -> (r: Option<TokenKind>)
        ensures
            r == spec_from_lexer(kind),
            is_trivia(kind) ==> r is None,
    {
        match kind {
            lexer::TokenKind::Ident => Some(TokenKind::Ident),
            lexer::TokenKind::Let => Some(TokenKind::Let),
            lexer::TokenKind::Fun => Some(TokenKind::Fun),
            lexer::TokenKind::Return => Some(TokenKind::Return),
            lexer::TokenKind::Literal { kind } => Some(TokenKind::Literal { kind }),
            lexer::TokenKind::Semi => Some(TokenKind::Semi),
            lexer::TokenKind::Comma => Some(TokenKind::Comma),
            lexer::TokenKind::Dot => Some(TokenKind::Dot),
            lexer::TokenKind::OpenParen => Some(TokenKind::OpenParen),
            lexer::TokenKind::CloseParen => Some(TokenKind::CloseParen),
            lexer::TokenKind::Eq => Some(TokenKind::Eq),
            lexer::TokenKind::Bang => Some(TokenKind::Bang),
            lexer::TokenKind::BangEq => Some(TokenKind::BangEq),
            lexer::TokenKind::EqEq => Some(TokenKind::EqEq),
            lexer::TokenKind::Gt => Some(TokenKind::Gt),
            lexer::TokenKind::GtEq => Some(TokenKind::GtEq),
            lexer::TokenKind::Lt => Some(TokenKind::Lt),
            lexer::TokenKind::LtEq => Some(TokenKind::LtEq),
            lexer::TokenKind::Minus => Some(TokenKind::Minus),
            lexer::TokenKind::Plus => Some(TokenKind::Plus),
            lexer::TokenKind::Slash => Some(TokenKind::Slash),
            lexer::TokenKind::Star => Some(TokenKind::Star),
            lexer::TokenKind::Eof => Some(TokenKind::Eof),
            _ => None,
        }
    }
}

/// Projects a scanner stream onto the parser's vocabulary: trivia and kinds
/// the grammar does not use are dropped, the rest keep their order and spans.
pub fn filter_tokens(tokens: &[LexerToken]) -> (r: Vec<ParserToken>)
    ensures
        r@ == spec_filter(tokens@),
{
    let mut out: Vec<ParserToken> = Vec::new();
    let mut i: usize = 0;
    while i < tokens.len()
        invariant
            i <= tokens@.len(),
            out@ == spec_filter(tokens@.subrange(0, i as int)),
        decreases tokens@.len() - i,
    {
        let t = tokens[i];
        assert(tokens@.subrange(0, i + 1).drop_last() =~= tokens@.subrange(0, i as int));
        match TokenKind::from_lexer(t.kind) {
            Some(kind) => {
                out.push(Token { kind, span: t.span });
            },
            None => {},
        }
        i = i + 1;
    }
    assert(tokens@.subrange(0, i as int) =~= tokens@);
    out
}

} // verus!
