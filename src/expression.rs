//! The syntax tree: expressions, statements and literal values, with their
//! mathematical models.
use vstd::prelude::*;
use vstd::string::StrSliceExecFns;
use crate::lexer;
use crate::scanner::is_digit;
use crate::text::{byte_len, chars_of, lemma_byte_len_is_encoding_len, spells, text_in, text_of};
use crate::tokens::TokenKind;

verus! {

/// Unary and binary operators.
#[derive(Clone, Copy, Debug, PartialEq, Eq, Structural)]
pub enum Operator {
    Not,
    NotEq,
    EqEq,
    Gt,
    GtEq,
    Lt,
    LtEq,
    Minus,
    Plus,
    Slash,
    Star,
}

/// A literal value, read from the text of a literal token. A float keeps its
/// decimal text.
#[derive(Clone, Debug)]
pub enum Literal {
    Int(i32),
    Float(String),
    Bool(bool),
    Char(char),
    Str(String),
}

#[derive(Debug)]
pub enum Expression {
    Binary { left: Box<Expression>, operator: Operator, right: Box<Expression> },
    Grouping(Box<Expression>),
    Literal(Literal),
    Unary(Operator, Box<Expression>),
}

#[derive(Debug)]
pub enum Statement {
    Let { name: String, value: Expression },
    Return { value: Expression },
    Expression { value: Expression },
}

/// Any node of the syntax tree; a program is its ordered statements.
pub enum Node {
    Expression(Expression),
    Statement(Statement),
    Program(Vec<Statement>),
}

/// The model of a literal value.
pub enum LiteralModel {
    Int(i32),
    Float(Seq<char>),
    Bool(bool),
    Char(char),
    Str(Seq<char>),
}

/// The model of an expression.
pub enum ExpressionModel {
    Binary { left: Box<ExpressionModel>, operator: Operator, right: Box<ExpressionModel> },
    Grouping(Box<ExpressionModel>),
    Literal(LiteralModel),
    Unary(Operator, Box<ExpressionModel>),
}

/// The model of a statement.
pub enum StatementModel {
    Let { name: Seq<char>, value: ExpressionModel },
    Return { value: ExpressionModel },
    Expression { value: ExpressionModel },
}

pub open spec fn literal_model(l: Literal) -> LiteralModel {
    match l {
        Literal::Int(v) => LiteralModel::Int(v),
        Literal::Float(t) => LiteralModel::Float(t@),
        Literal::Bool(b) => LiteralModel::Bool(b),
        Literal::Char(c) => LiteralModel::Char(c),
        Literal::Str(t) => LiteralModel::Str(t@),
    }
}

pub open spec fn expression_model(e: Expression) -> ExpressionModel
    decreases e,
{
    match e {
        Expression::Binary { left, operator, right } => ExpressionModel::Binary {
            left: Box::new(expression_model(*left)),
            operator,
            right: Box::new(expression_model(*right)),
        },
        Expression::Grouping(inner) => ExpressionModel::Grouping(Box::new(expression_model(*inner))),
        Expression::Literal(l) => ExpressionModel::Literal(literal_model(l)),
        Expression::Unary(op, operand) => ExpressionModel::Unary(op, Box::new(expression_model(*operand))),
    }
}

pub open spec fn statement_model(s: Statement) -> StatementModel {
    match s {
        Statement::Let { name, value } => StatementModel::Let { name: name@, value: expression_model(value) },
        Statement::Return { value } => StatementModel::Return { value: expression_model(value) },
        Statement::Expression { value } => StatementModel::Expression { value: expression_model(value) },
    }
}

impl View for Literal {
    type V = LiteralModel;

    open spec fn view(&self) -> LiteralModel {
        literal_model(*self)
    }
}

impl View for Expression {
    type V = ExpressionModel;

    open spec fn view(&self) -> ExpressionModel {
        expression_model(*self)
    }
}

impl View for Statement {
    type V = StatementModel;

    open spec fn view(&self) -> StatementModel {
        statement_model(*self)
    }
}

/// The operator a token stands for, if any.
pub open spec fn spec_operator(kind: TokenKind) -> Option<Operator> {
    match kind {
        TokenKind::Bang => Some(Operator::Not),
        TokenKind::BangEq => Some(Operator::NotEq),
        TokenKind::EqEq => Some(Operator::EqEq),
        TokenKind::Gt => Some(Operator::Gt),
        TokenKind::GtEq => Some(Operator::GtEq),
        TokenKind::Lt => Some(Operator::Lt),
        TokenKind::LtEq => Some(Operator::LtEq),
        TokenKind::Minus => Some(Operator::Minus),
        TokenKind::Plus => Some(Operator::Plus),
        TokenKind::Slash => Some(Operator::Slash),
        TokenKind::Star => Some(Operator::Star),
        _ => None,
    }
}

impl Operator {
    /// The operator a token stands for, if any.
    pub fn from_token(token: TokenKind) -> (r: Option<Operator>)
        ensures
            r == spec_operator(token),
    {
        match token {
            TokenKind::Bang => Some(Operator::Not),
            TokenKind::BangEq => Some(Operator::NotEq),
            TokenKind::EqEq => Some(Operator::EqEq),
            TokenKind::Gt => Some(Operator::Gt),
            TokenKind::GtEq => Some(Operator::GtEq),
            TokenKind::Lt => Some(Operator::Lt),
            TokenKind::LtEq => Some(Operator::LtEq),
            TokenKind::Minus => Some(Operator::Minus),
            TokenKind::Plus => Some(Operator::Plus),
            TokenKind::Slash => Some(Operator::Slash),
            TokenKind::Star => Some(Operator::Star),
            _ => None,
        }
    }
}

pub open spec fn digit_value(c: char) -> int {
    (c as int) - ('0' as int)
}

pub open spec fn all_digits(t: Seq<char>) -> bool {
    forall|k: int| 0 <= k < t.len() ==> #[trigger] is_digit(t[k])
}

/// The value of a string of decimal digits.
pub open spec fn decimal_value(t: Seq<char>) -> int
    decreases t.len(),
{
    if t.len() == 0 {
        0
    } else {
        10 * decimal_value(t.drop_last()) + digit_value(t.last())
    }
}

/// The value that the text `t` of a literal token of kind `kind` denotes, or
/// `None` where it denotes none: an integer out of range of `i32`, a string or
/// character literal without its closing quote.
pub open spec fn literal_value(kind: lexer::Literal, t: Seq<char>) -> Option<LiteralModel> {
    match kind {
        lexer::Literal::Int => if t.len() > 0 && all_digits(t) && decimal_value(t) <= i32::MAX {
            Some(LiteralModel::Int(decimal_value(t) as i32))
        } else {
            None
        },
        lexer::Literal::Float => Some(LiteralModel::Float(t)),
        lexer::Literal::Bool => if t == seq!['t', 'r', 'u', 'e'] {
            Some(LiteralModel::Bool(true))
        } else if t == seq!['f', 'a', 'l', 's', 'e'] {
            Some(LiteralModel::Bool(false))
        } else {
            None
        },
        lexer::Literal::Char { terminated } => if terminated && t.len() >= 2 {
            Some(LiteralModel::Char(t[1]))
        } else {
            None
        },
        lexer::Literal::Str { terminated } => if terminated && byte_len(t) >= 2 && text_of(
            t,
            1,
            byte_len(t) - 1,
        ) is Some {
            Some(LiteralModel::Str(text_of(t, 1, byte_len(t) - 1)->0))
        } else {
            None
        },
    }
}

proof fn lemma_decimal_nonneg(t: Seq<char>)
    requires
        all_digits(t),
    ensures
        decimal_value(t) >= 0,
    decreases t.len(),
{
    if t.len() > 0 {
        assert(all_digits(t.drop_last())) by {
            assert forall|k: int| 0 <= k < t.drop_last().len() implies #[trigger] is_digit(
                t.drop_last()[k],
            ) by {
                assert(is_digit(t[k]));
            }
        }
        lemma_decimal_nonneg(t.drop_last());
        assert(is_digit(t[t.len() - 1]));
    }
}

proof fn lemma_decimal_prefix_mono(t: Seq<char>, k: int, j: int)
    requires
        all_digits(t),
        0 <= k <= j <= t.len(),
    ensures
        decimal_value(t.take(k)) <= decimal_value(t.take(j)),
    decreases j - k,
{
    if k < j {
        lemma_decimal_prefix_mono(t, k, j - 1);
        let p = t.take(j);
        assert(p.drop_last() =~= t.take(j - 1));
        assert(all_digits(t.take(j - 1))) by {
            assert forall|m: int| 0 <= m < t.take(j - 1).len() implies #[trigger] is_digit(
                t.take(j - 1)[m],
            ) by {
                assert(is_digit(t[m]));
            }
        }
        lemma_decimal_nonneg(t.take(j - 1));
        assert(is_digit(t[j - 1]));
    }
}

fn decimal_i32(t: &Vec<char>) -> (r: Option<i32>)
    ensures
        r is Some <==> (t@.len() > 0 && all_digits(t@) && decimal_value(t@) <= i32::MAX),
        r is Some ==> r->0 == decimal_value(t@),
{
    if t.len() == 0 {
        return None;
    }
    let mut acc: u64 = 0;
    let mut k: usize = 0;
    while k < t.len()
        invariant
            k <= t@.len(),
            all_digits(t@.take(k as int)),
            acc == decimal_value(t@.take(k as int)),
            acc <= i32::MAX,
        decreases t@.len() - k,
    {
        let c = t[k];
        if !('0' <= c && c <= '9') {
            assert(!is_digit(t@[k as int]));
            return None;
        }
        let next = acc * 10 + (c as u64 - '0' as u64);
        assert(t@.take(k + 1).drop_last() =~= t@.take(k as int));
        assert(all_digits(t@.take(k + 1))) by {
            assert forall|m: int| 0 <= m < k + 1 implies #[trigger] is_digit(t@.take(k + 1)[m]) by {
                if m < k {
                    assert(t@.take(k + 1)[m] == t@.take(k as int)[m]);
                }
            }
        }
        if next > 0x7fff_ffff {
            proof {
                if all_digits(t@) {
                    lemma_decimal_prefix_mono(t@, k + 1, t@.len() as int);
                    assert(t@.take(t@.len() as int) =~= t@);
                }
            }
            return None;
        }
        acc = next;
        k = k + 1;
    }
    assert(t@.take(k as int) =~= t@);
    Some(acc as i32)
}

impl Literal {
    /// Reads the value of a literal token of kind `other` from its text.
    pub fn from_token_literal(other: lexer::Literal, text: &str) -> (r: Option<Literal>)
        ensures
            r is Some <==> literal_value(other, text@) is Some,
            r is Some ==> r->0@ == literal_value(other, text@)->0,
    {
        match other {
            lexer::Literal::Int => {
                let chars = chars_of(text);
                match decimal_i32(&chars) {
                    Some(v) => Some(Literal::Int(v)),
                    None => None,
                }
            },
            lexer::Literal::Float => Some(Literal::Float(text.to_owned())),
            lexer::Literal::Bool => {
                let chars = chars_of(text);
                let true_word = ['t', 'r', 'u', 'e'];
                let false_word = ['f', 'a', 'l', 's', 'e'];
                assert(true_word@ == seq!['t', 'r', 'u', 'e']);
                assert(false_word@ == seq!['f', 'a', 'l', 's', 'e']);
                assert(chars@.subrange(0, chars@.len() as int) =~= chars@);
                if spells(&chars, 0, chars.len(), &true_word) {
                    Some(Literal::Bool(true))
                } else if spells(&chars, 0, chars.len(), &false_word) {
                    Some(Literal::Bool(false))
                } else {
                    None
                }
            },
            lexer::Literal::Char { terminated } => {
                if terminated && text.unicode_len() >= 2 {
                    Some(Literal::Char(text.get_char(1)))
                } else {
                    None
                }
            },
            lexer::Literal::Str { terminated } => {
                let n = text.as_bytes().len();
                proof {
                    lemma_byte_len_is_encoding_len(text@);
                }
                if terminated && n >= 2 {
                    match text_in(text, 1, n - 1) {
                        Some(inner) => Some(Literal::Str(inner)),
                        None => None,
                    }
                } else {
                    None
                }
            },
        }
    }
}

} // verus!
