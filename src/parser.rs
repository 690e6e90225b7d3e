//! The recursive-descent parser: statements by their leading keyword,
//! expressions by precedence climbing over the operator tiers.
use vstd::prelude::*;
use vstd::utf8::encode_utf8;
use codespan::FileId;
use crate::diagnostic::{Diagnostic, DiagnosticKind};
use crate::expression::{Expression, ExpressionModel, Literal, Operator, Statement, StatementModel};
use crate::grammar::{
    climb, diagnostic_at, expr_at, kind_at, program, spec_parse, stmt_at, sync_from, terminated, tier_operator,
    tok_at, unexpected, ParseInput, Parsed,
};
use crate::lexer::{Span, Token};
use crate::text::text_in;
use crate::tokens::{ParserToken, TokenKind};

verus! {

/// What parsing yields: the program's statements in source order, or a
/// non-empty list of diagnostics.
pub type ParseResult = Result<Vec<Statement>, Vec<Diagnostic>>;

/// The model of a parse result.
pub open spec fn outcome(r: ParseResult) -> Result<Seq<StatementModel>, Seq<Diagnostic>> {
    match r {
        Ok(v) => Ok(v@.map_values(|s: Statement| s@)),
        Err(d) => Err(d@),
    }
}

/// Whether an executable expression result agrees with the grammar at `pos`.
pub open spec fn expr_agrees(
    c: ParseInput,
    pos: int,
    g: Parsed<ExpressionModel>,
    r: Result<(Expression, usize), Diagnostic>,
) -> bool {
    match r {
        Ok((e, q)) => g == Parsed::<ExpressionModel>::Ok((e@, q as int)) && pos <= q
            <= c.tokens.len(),
        Err(d) => g == Parsed::<ExpressionModel>::Err(d),
    }
}

/// Whether an executable statement result agrees with the grammar at `pos`.
pub open spec fn stmt_agrees(c: ParseInput, pos: int, r: Result<(Statement, usize), Diagnostic>) -> bool {
    match r {
        Ok((s, q)) => stmt_at(c, pos) == Parsed::<StatementModel>::Ok((s@, q as int)) && pos < q
            <= c.tokens.len(),
        Err(d) => stmt_at(c, pos) == Parsed::<StatementModel>::Err(d),
    }
}

/// The parser over one token slice; positions are explicit indices into it.
struct Parser<'a> {
    tokens: &'a [ParserToken],
    src: &'a str,
    file_id: FileId,
    src_len: usize,
}

impl<'a> Parser<'a> {
    spec fn input(&self) -> ParseInput {
        ParseInput { tokens: self.tokens@, src: self.src@, file_id: self.file_id }
    }

    spec fn wf(&self) -> bool {
        &&& self.src_len == encode_utf8(self.src@).len()
        &&& self.tokens@.len() <= usize::MAX
    }

    /// The token at `pos`, or `Eof` at the end of the source past the stream.
    fn token_at(&self, pos: usize) -> (r: ParserToken)
        requires
            self.wf(),
        ensures
            r == tok_at(self.input(), pos as int),
    {
        if pos < self.tokens.len() {
            self.tokens[pos]
        } else {
            Token { kind: TokenKind::Eof, span: Span { start: self.src_len, end: self.src_len } }
        }
    }

    fn error_at(&self, span: Span, kind: DiagnosticKind) -> (r: Diagnostic)
        ensures
            r == diagnostic_at(self.input(), span, kind),
    {
        Diagnostic { file_id: self.file_id, span, kind }
    }

    /// The diagnostic for `expected` missing where a `found` token stands.
    fn expected_token_error(&self, found: TokenKind, expected: TokenKind, span: Span) -> (r: Diagnostic)
        ensures
            r == diagnostic_at(self.input(), span, DiagnosticKind::UnexpectedToken { expected, found }),
    {
        self.error_at(span, DiagnosticKind::UnexpectedToken { expected, found })
    }

    fn unexpected_at(&self, pos: usize, expected: TokenKind) -> (r: Diagnostic)
        requires
            self.wf(),
        ensures
            r == unexpected(self.input(), pos as int, expected),
    {
        let t = self.token_at(pos);
        self.expected_token_error(t.kind, expected, t.span)
    }

    fn tier_operator_of(kind: TokenKind, tier: u8) -> (r: Option<Operator>)
        ensures
            r == tier_operator(kind, tier as int),
    {
        let belongs = if tier == 0 {
            kind == TokenKind::EqEq || kind == TokenKind::BangEq
        } else if tier == 1 {
            kind == TokenKind::Lt || kind == TokenKind::LtEq || kind == TokenKind::Gt || kind
                == TokenKind::GtEq
        } else if tier == 2 {
            kind == TokenKind::Plus || kind == TokenKind::Minus
        } else if tier == 3 {
            kind == TokenKind::Star || kind == TokenKind::Slash
        } else {
            false
        };
        if belongs {
            Operator::from_token(kind)
        } else {
            None
        }
    }

    /// An expression of binary tier `tier` (0 to 3) or tighter at `pos`.
    fn expression(&self, pos: usize, tier: u8) -> (r: Result<(Expression, usize), Diagnostic>)
        requires
            self.wf(),
            pos <= self.tokens@.len(),
            tier <= 3,
        ensures
            expr_agrees(self.input(), pos as int, expr_at(self.input(), pos as int, tier as int), r),
        decreases self.tokens@.len() - pos, 5 - tier, 1int,
    {
        let first = if tier == 3 {
            self.unary(pos)
        } else {
            self.expression(pos, tier + 1)
        };
        let (mut left, mut q) = match first {
            Ok(x) => x,
            Err(d) => {
                return Err(d);
            },
        };
        loop
            invariant
                self.wf(),
                pos <= q <= self.tokens@.len(),
                tier <= 3,
                expr_at(self.input(), pos as int, tier as int) == climb(
                    self.input(),
                    q as int,
                    tier as int,
                    left@,
                ),
            decreases self.tokens@.len() - q,
        {
            let t = self.token_at(q);
            match Self::tier_operator_of(t.kind, tier) {
                None => {
                    return Ok((left, q));
                },
                Some(op) => {
                    let right = if tier == 3 {
                        self.unary(q + 1)
                    } else {
                        self.expression(q + 1, tier + 1)
                    };
                    match right {
                        Err(d) => {
                            return Err(d);
                        },
                        Ok((right, r)) => {
                            left = Expression::Binary {
                                left: Box::new(left),
                                operator: op,
                                right: Box::new(right),
                            };
                            q = r;
                        },
                    }
                },
            }
        }
    }

    /// A prefix-operator expression, or a primary, at `pos`.
    fn unary(&self, pos: usize) -> (r: Result<(Expression, usize), Diagnostic>)
        requires
            self.wf(),
            pos <= self.tokens@.len(),
        ensures
            expr_agrees(self.input(), pos as int, expr_at(self.input(), pos as int, 4), r),
        decreases self.tokens@.len() - pos, 1int, 1int,
    {
        let t = self.token_at(pos);
        if t.kind == TokenKind::Bang || t.kind == TokenKind::Minus {
            let op = if t.kind == TokenKind::Bang {
                Operator::Not
            } else {
                Operator::Minus
            };
            match self.unary(pos + 1) {
                Err(d) => Err(d),
                Ok((e, q)) => Ok((Expression::Unary(op, Box::new(e)), q)),
            }
        } else {
            self.primary(pos)
        }
    }

    /// A literal or a parenthesised expression at `pos`.
    fn primary(&self, pos: usize) -> (r: Result<(Expression, usize), Diagnostic>)
        requires
            self.wf(),
            pos <= self.tokens@.len(),
        ensures
            expr_agrees(self.input(), pos as int, expr_at(self.input(), pos as int, 5), r),
        decreases self.tokens@.len() - pos, 0int, 1int,
    {
        let t = self.token_at(pos);
        match t.kind {
            TokenKind::Literal { kind } => match text_in(self.src, t.span.start, t.span.end) {
                None => Err(self.error_at(t.span, DiagnosticKind::SpanOutsideSource)),
                Some(text) => match Literal::from_token_literal(kind, text.as_str()) {
                    Some(v) => Ok((Expression::Literal(v), pos + 1)),
                    None => Err(self.error_at(t.span, DiagnosticKind::InvalidLiteral { kind })),
                },
            },
            TokenKind::OpenParen => match self.expression(pos + 1, 0) {
                Err(d) => Err(d),
                Ok((e, q)) => {
                    let close = self.token_at(q);
                    if close.kind == TokenKind::CloseParen {
                        Ok((Expression::Grouping(Box::new(e)), q + 1))
                    } else {
                        Err(self.unexpected_at(q, TokenKind::CloseParen))
                    }
                },
            },
            _ => Err(self.error_at(t.span, DiagnosticKind::ExpectedExpression { found: t.kind })),
        }
    }

    /// An expression and the `;` after it.
    fn parse_terminated_expression(&self, pos: usize) -> (r: Result<(Expression, usize), Diagnostic>)
        requires
            self.wf(),
            pos <= self.tokens@.len(),
        ensures
            expr_agrees(
                self.input(),
                pos as int,
                terminated(self.input(), expr_at(self.input(), pos as int, 0)),
                r,
            ),
            r matches Ok((_, q)) ==> pos < q,
    {
        match self.expression(pos, 0) {
            Err(d) => Err(d),
            Ok((e, q)) => {
                if self.token_at(q).kind == TokenKind::Semi {
                    Ok((e, q + 1))
                } else {
                    Err(self.unexpected_at(q, TokenKind::Semi))
                }
            },
        }
    }

    /// `let <ident> = <expression> ;`, with `pos` at the `let`.
    fn parse_let_statement(&self, pos: usize) -> (r: Result<(Statement, usize), Diagnostic>)
        requires
            self.wf(),
            pos < self.tokens@.len(),
            kind_at(self.input(), pos as int) == TokenKind::Let,
        ensures
            stmt_agrees(self.input(), pos as int, r),
    {
        let ident = self.token_at(pos + 1);
        if ident.kind != TokenKind::Ident {
            return Err(self.unexpected_at(pos + 1, TokenKind::Ident));
        }
        let name = match text_in(self.src, ident.span.start, ident.span.end) {
            None => {
                return Err(self.error_at(ident.span, DiagnosticKind::SpanOutsideSource));
            },
            Some(n) => n,
        };
        if self.token_at(pos + 2).kind != TokenKind::Eq {
            return Err(self.unexpected_at(pos + 2, TokenKind::Eq));
        }
        match self.parse_terminated_expression(pos + 3) {
            Err(d) => Err(d),
            Ok((value, q)) => Ok((Statement::Let { name, value }, q)),
        }
    }

    /// `return <expression> ;`, with `pos` at the `return`.
    fn parse_return_statement(&self, pos: usize) -> (r: Result<(Statement, usize), Diagnostic>)
        requires
            self.wf(),
            pos < self.tokens@.len(),
            kind_at(self.input(), pos as int) == TokenKind::Return,
        ensures
            stmt_agrees(self.input(), pos as int, r),
    {
        match self.parse_terminated_expression(pos + 1) {
            Err(d) => Err(d),
            Ok((value, q)) => Ok((Statement::Return { value }, q)),
        }
    }

    /// `<expression> ;` at `pos`.
    fn parse_expression_statement(&self, pos: usize) -> (r: Result<(Statement, usize), Diagnostic>)
        requires
            self.wf(),
            pos < self.tokens@.len(),
            kind_at(self.input(), pos as int) != TokenKind::Let,
            kind_at(self.input(), pos as int) != TokenKind::Return,
        ensures
            stmt_agrees(self.input(), pos as int, r),
    {
        match self.parse_terminated_expression(pos) {
            Err(d) => Err(d),
            Ok((value, q)) => Ok((Statement::Expression { value }, q)),
        }
    }

    /// The statement at `pos`, chosen by its leading token.
    fn parse_statement(&self, pos: usize) -> (r: Result<(Statement, usize), Diagnostic>)
        requires
            self.wf(),
            pos < self.tokens@.len(),
        ensures
            stmt_agrees(self.input(), pos as int, r),
    {
        let kind = self.token_at(pos).kind;
        if kind == TokenKind::Let {
            self.parse_let_statement(pos)
        } else if kind == TokenKind::Return {
            self.parse_return_statement(pos)
        } else {
            self.parse_expression_statement(pos)
        }
    }

    /// The position past the next `;` from `pos`, or of the next `Eof`.
    fn synchronize(&self, pos: usize) -> (r: usize)
        requires
            self.wf(),
            pos <= self.tokens@.len(),
        ensures
            r == sync_from(self.input(), pos as int),
            pos <= r <= self.tokens@.len(),
            pos < self.tokens@.len() && kind_at(self.input(), pos as int) != TokenKind::Eof ==> pos < r,
    {
        let mut q = pos;
        while q < self.tokens.len() && self.tokens[q].kind != TokenKind::Eof
            && self.tokens[q].kind != TokenKind::Semi
            invariant
                self.wf(),
                pos <= q <= self.tokens@.len(),
                sync_from(self.input(), q as int) == sync_from(self.input(), pos as int),
                pos < self.tokens@.len() && kind_at(self.input(), pos as int) != TokenKind::Eof
                    && q == pos ==> q < self.tokens@.len() && kind_at(self.input(), q as int)
                    != TokenKind::Eof,
            decreases self.tokens@.len() - q,
        {
            q = q + 1;
        }
        if q < self.tokens.len() && self.tokens[q].kind == TokenKind::Semi {
            q + 1
        } else {
            q
        }
    }

    /// Every statement up to `Eof`; after a failed statement, parsing resumes
    /// past the next `;`.
    fn parse_program(&self) -> (r: ParseResult)
        requires
            self.wf(),
        ensures
            outcome(r) == spec_parse(self.input()),
    {
        let ghost c = self.input();
        let mut statements: Vec<Statement> = Vec::new();
        let mut errors: Vec<Diagnostic> = Vec::new();
        let mut pos: usize = 0;
        loop
            invariant
                self.wf(),
                c == self.input(),
                pos <= self.tokens@.len(),
                statements@.map_values(|s: Statement| s@) + program(c, pos as int).0 == program(c, 0).0,
                errors@ + program(c, pos as int).1 == program(c, 0).1,
            ensures
                statements@.map_values(|s: Statement| s@) == program(c, 0).0,
                errors@ == program(c, 0).1,
            decreases self.tokens@.len() - pos,
        {
            if pos >= self.tokens.len() || self.tokens[pos].kind == TokenKind::Eof {
                assert(statements@.map_values(|s: Statement| s@) + program(c, pos as int).0
                    =~= statements@.map_values(|s: Statement| s@));
                assert(errors@ + program(c, pos as int).1 =~= errors@);
                break;
            }
            let ghost before = statements@.map_values(|s: Statement| s@);
            let ghost errors_before = errors@;
            match self.parse_statement(pos) {
                Ok((s, q)) => {
                    statements.push(s);
                    assert(statements@.map_values(|s: Statement| s@) =~= before.push(s@));
                    assert(before + program(c, pos as int).0 =~= before.push(s@) + program(
                        c,
                        q as int,
                    ).0);
                    pos = q;
                },
                Err(d) => {
                    errors.push(d);
                    let next = self.synchronize(pos);
                    assert(errors_before + program(c, pos as int).1 =~= errors@ + program(
                        c,
                        next as int,
                    ).1);
                    pos = next;
                },
            }
        }
        if errors.len() == 0 {
            Ok(statements)
        } else {
            Err(errors)
        }
    }
}

/// Parses a filtered token stream of `src`. The outcome is the program's
/// statements when no expectation failed, and otherwise the diagnostics, one
/// for each statement that failed, in order; parsing resumes past the next
/// `;` after each.
pub fn parse(file_id: FileId, src: &str, tokens: &[ParserToken]) -> (r: ParseResult)
    ensures
        outcome(r) == spec_parse(ParseInput { tokens: tokens@, src: src@, file_id }),
{
    // The length of any slice fits in `usize`.
    let token_count = tokens.len();
    assert(tokens@.len() == token_count);
    let parser = Parser { tokens, src, file_id, src_len: src.as_bytes().len() };
    parser.parse_program()
}

} // verus!
