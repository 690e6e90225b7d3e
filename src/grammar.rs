//! The grammar, stated over token sequences: what each parsing function of the
//! parser yields from a position, and what a whole program parses to.
//!
//! Expression tiers, loosest first: 0 equality, 1 relational, 2 additive,
//! 3 multiplicative, 4 unary prefix, 5 primary.
use vstd::prelude::*;
use vstd::utf8::encode_utf8;
use codespan::FileId;
use crate::diagnostic::{Diagnostic, DiagnosticKind};
use crate::expression::{literal_value, spec_operator, ExpressionModel, Operator, StatementModel};
use crate::lexer::{Span, Token};
use crate::text::text_of;
use crate::tokens::{ParserToken, TokenKind};

verus! {

/// What a parse reads: the filtered tokens, the source text their spans
/// index, and the file that diagnostics name.
pub struct ParseInput {
    pub tokens: Seq<ParserToken>,
    pub src: Seq<char>,
    pub file_id: FileId,
}

/// The result of a parsing function: a value and the position after it, or
/// the diagnostic for the first expectation that failed.
pub type Parsed<T> = Result<(T, int), Diagnostic>;

/// The token at position `p`; past the end of the stream, an `Eof` token at
/// the end of the source.
pub open spec fn tok_at(c: ParseInput, p: int) -> ParserToken {
    if 0 <= p < c.tokens.len() {
        c.tokens[p]
    } else {
        Token {
            kind: TokenKind::Eof,
            span: Span {
                start: encode_utf8(c.src).len() as usize,
                end: encode_utf8(c.src).len() as usize,
            },
        }
    }
}

pub open spec fn kind_at(c: ParseInput, p: int) -> TokenKind {
    tok_at(c, p).kind
}

pub open spec fn diagnostic_at(c: ParseInput, span: Span, kind: DiagnosticKind) -> Diagnostic {
    Diagnostic { file_id: c.file_id, span, kind }
}

/// The diagnostic for a token of kind `expected` missing at position `p`.
pub open spec fn unexpected(c: ParseInput, p: int, expected: TokenKind) -> Diagnostic {
    diagnostic_at(
        c,
        tok_at(c, p).span,
        DiagnosticKind::UnexpectedToken { expected, found: kind_at(c, p) },
    )
}

/// The binary operator of tier `tier` that `kind` stands for, if any.
pub open spec fn tier_operator(kind: TokenKind, tier: int) -> Option<Operator> {
    let belongs = if tier == 0 {
        kind == TokenKind::EqEq || kind == TokenKind::BangEq
    } else if tier == 1 {
        kind == TokenKind::Lt || kind == TokenKind::LtEq || kind == TokenKind::Gt || kind
            == TokenKind::GtEq
    } else if tier == 2 {
        kind == TokenKind::Plus || kind == TokenKind::Minus
    } else if tier == 3 {
        kind == TokenKind::Star || kind == TokenKind::Slash
    } else {
        false
    };
    if belongs {
        spec_operator(kind)
    } else {
        None
    }
}

/// An expression of tier `tier` or tighter, starting at position `p`.
pub open spec fn expr_at(c: ParseInput, p: int, tier: int) -> Parsed<ExpressionModel>
    decreases c.tokens.len() - p, 5 - tier, 1int,
{
    if p < 0 || p > c.tokens.len() || tier < 0 || tier > 5 {
        // Positions past the stream and tiers out of range do not arise.
        Err(unexpected(c, p, TokenKind::Eof))
    } else if tier == 5 {
        let t = tok_at(c, p);
        match t.kind {
            TokenKind::Literal { kind } => match text_of(c.src, t.span.start as int, t.span.end as int) {
                None => Err(diagnostic_at(c, t.span, DiagnosticKind::SpanOutsideSource)),
                Some(text) => match literal_value(kind, text) {
                    Some(v) => Ok((ExpressionModel::Literal(v), p + 1)),
                    None => Err(diagnostic_at(c, t.span, DiagnosticKind::InvalidLiteral { kind })),
                },
            },
            TokenKind::OpenParen => match expr_at(c, p + 1, 0) {
                Err(d) => Err(d),
                Ok((e, q)) => if kind_at(c, q) == TokenKind::CloseParen {
                    Ok((ExpressionModel::Grouping(Box::new(e)), q + 1))
                } else {
                    Err(unexpected(c, q, TokenKind::CloseParen))
                },
            },
            _ => Err(diagnostic_at(c, t.span, DiagnosticKind::ExpectedExpression { found: t.kind })),
        }
    } else if tier == 4 {
        let k = kind_at(c, p);
        if k == TokenKind::Bang || k == TokenKind::Minus {
            match expr_at(c, p + 1, 4) {
                Err(d) => Err(d),
                Ok((e, q)) => Ok((ExpressionModel::Unary(spec_operator(k)->0, Box::new(e)), q)),
            }
        } else {
            expr_at(c, p, 5)
        }
    } else {
        match expr_at(c, p, tier + 1) {
            Err(d) => Err(d),
            Ok((left, q)) => if q < p || q > c.tokens.len() {
                Err(unexpected(c, q, TokenKind::Eof))
            } else {
                climb(c, q, tier, left)
            },
        }
    }
}

/// Left-associative folding of the operators of tier `tier` onto `left`,
/// from position `q` on.
pub open spec fn climb(c: ParseInput, q: int, tier: int, left: ExpressionModel) -> Parsed<
    ExpressionModel,
>
    decreases c.tokens.len() - q, 5 - tier, 0int,
{
    if q < 0 || q > c.tokens.len() || tier < 0 || tier > 3 {
        Ok((left, q))
    } else {
        match tier_operator(kind_at(c, q), tier) {
            None => Ok((left, q)),
            Some(op) => match expr_at(c, q + 1, tier + 1) {
                Err(d) => Err(d),
                Ok((right, r)) => if r <= q || r > c.tokens.len() {
                    Err(unexpected(c, r, TokenKind::Eof))
                } else {
                    climb(
                        c,
                        r,
                        tier,
                        ExpressionModel::Binary { left: Box::new(left), operator: op, right: Box::new(right) },
                    )
                },
            },
        }
    }
}

/// An expression followed by the `;` that ends its statement.
pub open spec fn terminated(c: ParseInput, r: Parsed<ExpressionModel>) -> Parsed<ExpressionModel> {
    match r {
        Err(d) => Err(d),
        Ok((e, q)) => if kind_at(c, q) == TokenKind::Semi {
            Ok((e, q + 1))
        } else {
            Err(unexpected(c, q, TokenKind::Semi))
        },
    }
}

/// The statement starting at position `p`.
pub open spec fn stmt_at(c: ParseInput, p: int) -> Parsed<StatementModel> {
    let k = kind_at(c, p);
    if k == TokenKind::Let {
        if kind_at(c, p + 1) != TokenKind::Ident {
            Err(unexpected(c, p + 1, TokenKind::Ident))
        } else {
            let span = tok_at(c, p + 1).span;
            match text_of(c.src, span.start as int, span.end as int) {
                None => Err(diagnostic_at(c, span, DiagnosticKind::SpanOutsideSource)),
                Some(name) => if kind_at(c, p + 2) != TokenKind::Eq {
                    Err(unexpected(c, p + 2, TokenKind::Eq))
                } else {
                    match terminated(c, expr_at(c, p + 3, 0)) {
                        Err(d) => Err(d),
                        Ok((e, q)) => Ok((StatementModel::Let { name, value: e }, q)),
                    }
                },
            }
        }
    } else if k == TokenKind::Return {
        match terminated(c, expr_at(c, p + 1, 0)) {
            Err(d) => Err(d),
            Ok((e, q)) => Ok((StatementModel::Return { value: e }, q)),
        }
    } else {
        match terminated(c, expr_at(c, p, 0)) {
            Err(d) => Err(d),
            Ok((e, q)) => Ok((StatementModel::Expression { value: e }, q)),
        }
    }
}

/// Where parsing resumes after a statement at `q` failed: past the next `;`,
/// or at the next `Eof`.
pub open spec fn sync_from(c: ParseInput, q: int) -> int
    decreases c.tokens.len() - q,
{
    if q < 0 || q >= c.tokens.len() || kind_at(c, q) == TokenKind::Eof {
        q
    } else if kind_at(c, q) == TokenKind::Semi {
        q + 1
    } else {
        sync_from(c, q + 1)
    }
}

/// The statements and diagnostics of the program from position `p` on.
pub open spec fn program(c: ParseInput, p: int) -> (Seq<StatementModel>, Seq<Diagnostic>)
    decreases c.tokens.len() - p,
{
    if p < 0 || p >= c.tokens.len() || kind_at(c, p) == TokenKind::Eof {
        (seq![], seq![])
    } else {
        match stmt_at(c, p) {
            Ok((s, q)) => if q <= p || q > c.tokens.len() {
                (seq![], seq![])
            } else {
                let (ss, ds) = program(c, q);
                (seq![s] + ss, ds)
            },
            Err(d) => {
                let q = sync_from(c, p);
                if q <= p || q > c.tokens.len() {
                    (seq![], seq![d])
                } else {
                    let (ss, ds) = program(c, q);
                    (ss, seq![d] + ds)
                }
            },
        }
    }
}

/// The outcome of parsing: the statements in source order when no
/// expectation failed, else every diagnostic in order.
pub open spec fn spec_parse(c: ParseInput) -> Result<Seq<StatementModel>, Seq<Diagnostic>> {
    let (ss, ds) = program(c, 0);
    if ds.len() == 0 {
        Ok(ss)
    } else {
        Err(ds)
    }
}


/// A parse either yields a program or fails with at least one diagnostic:
/// never both, never neither.
pub proof fn lemma_failure_has_diagnostics(c: ParseInput)
    ensures
        spec_parse(c) is Err ==> spec_parse(c)->Err_0.len() > 0,
        spec_parse(c) is Ok ==> program(c, 0).1.len() == 0,
{
}

} // verus!
