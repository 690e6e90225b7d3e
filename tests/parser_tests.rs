use codespan::Files;
use propane::diagnostic::{Diagnostic, DiagnosticKind};
use propane::expression::{Expression, Literal, Operator, Statement};
use propane::lexer::{self, Span};
use propane::tokens::{filter_tokens, TokenKind};
use propane::{parse, tokenize};

fn parse_str(src: &str) -> Result<Vec<Statement>, Vec<Diagnostic>> {
    let mut files = Files::new();
    let main = files.add("main", src.to_string());
    let tokens = tokenize(files.source(main));
    parse(main, src, &tokens)
}

fn int_value(e: &Expression) -> i32 {
    match e {
        Expression::Literal(Literal::Int(v)) => *v,
        other => panic!("not an integer literal: {:?}", other),
    }
}

#[test]
fn lib_it_works() {
    let src = r#"
// this is a comment
(( )){} // grouping stuff
let x = 3;
        "#;
    let errors = parse_str(src).unwrap_err();
    assert_eq!(errors.len(), 1);
    assert_eq!(errors[0].kind, DiagnosticKind::ExpectedExpression { found: TokenKind::CloseParen });
}

#[test]
fn parse_let() {
    let src = r#"
        let main = 3 + 3;
        let the_end = 14 * 2 \ (8 / 2) - 14;

        let another = main * the_end;
        "#;

    let mut files = Files::new();

    let main = files.add("main", src);

    let tokens = tokenize(files.source(main));

    let errors = parse(main, src, &tokens).unwrap_err();
    assert_eq!(errors.len(), 2);
    assert_eq!(
        errors[0].kind,
        DiagnosticKind::UnexpectedToken { expected: TokenKind::Semi, found: TokenKind::OpenParen }
    );
    assert_eq!(errors[1].kind, DiagnosticKind::ExpectedExpression { found: TokenKind::Ident });
    assert_eq!(&src[errors[1].span.start..errors[1].span.end], "main");
    assert_eq!(errors[1].file_id, main);
}

#[test]
fn parse_let_error() {
    let src = r#"
        let main 3 + 3;
        "#;

    let mut files = Files::new();

    let main = files.add("main", src);

    let tokens = tokenize(files.source(main));

    let Err(errors) = parse(main, src, &tokens) else {
        panic!("Expected err when parsing invalid let statement")
    };

    assert_eq!(errors.len(), 1);
    assert_eq!(
        errors[0].kind,
        DiagnosticKind::UnexpectedToken {
            expected: TokenKind::Eq,
            found: TokenKind::Literal { kind: lexer::Literal::Int }
        }
    );
    assert_eq!(&src[errors[0].span.start..errors[0].span.end], "3");
}

#[test]
fn let_statement() {
    let statements = parse_str("let x = 1;").unwrap();
    assert_eq!(statements.len(), 1);
    match &statements[0] {
        Statement::Let { name, value } => {
            assert_eq!(name, "x");
            assert_eq!(int_value(value), 1);
        }
        other => panic!("unexpected statement {:?}", other),
    }
}

#[test]
fn return_statement() {
    let statements = parse_str("return 1;").unwrap();
    assert_eq!(statements.len(), 1);
    match &statements[0] {
        Statement::Return { value } => assert_eq!(int_value(value), 1),
        other => panic!("unexpected statement {:?}", other),
    }
}

#[test]
fn precedence_and_associativity() {
    let statements = parse_str("1 + 2 * 3 - 4;").unwrap();
    let Statement::Expression { value } = &statements[0] else { panic!() };
    let Expression::Binary { left, operator: Operator::Minus, right } = value else { panic!("{:?}", value) };
    assert_eq!(int_value(right), 4);
    let Expression::Binary { left: one, operator: Operator::Plus, right: product } = &**left else { panic!() };
    assert_eq!(int_value(one), 1);
    let Expression::Binary { left: two, operator: Operator::Star, right: three } = &**product else { panic!() };
    assert_eq!((int_value(two), int_value(three)), (2, 3));
}

#[test]
fn comparison_binds_tighter_than_equality() {
    let statements = parse_str("1 < 2 == !true;").unwrap();
    let Statement::Expression { value } = &statements[0] else { panic!() };
    let Expression::Binary { left, operator: Operator::EqEq, right } = value else { panic!() };
    assert!(matches!(&**left, Expression::Binary { operator: Operator::Lt, .. }));
    assert!(matches!(&**right, Expression::Unary(Operator::Not, inner) if matches!(**inner, Expression::Literal(Literal::Bool(true)))));
}

#[test]
fn grouping_and_unary_minus() {
    let statements = parse_str("(1 + 2) / -3;").unwrap();
    let Statement::Expression { value } = &statements[0] else { panic!() };
    let Expression::Binary { left, operator: Operator::Slash, right } = value else { panic!() };
    assert!(matches!(&**left, Expression::Grouping(inner) if matches!(**inner, Expression::Binary { operator: Operator::Plus, .. })));
    assert!(matches!(&**right, Expression::Unary(Operator::Minus, inner) if int_value(inner) == 3));
}

#[test]
fn unmatched_parenthesis_is_a_diagnostic() {
    let errors = parse_str("(1;").unwrap_err();
    assert_eq!(errors.len(), 1);
    assert_eq!(
        errors[0].kind,
        DiagnosticKind::UnexpectedToken { expected: TokenKind::CloseParen, found: TokenKind::Semi }
    );
    assert_eq!(errors[0].span, Span { start: 2, end: 3 });
}

#[test]
fn missing_terminator_at_end_of_input() {
    let errors = parse_str("let x = 1").unwrap_err();
    assert_eq!(errors.len(), 1);
    assert_eq!(
        errors[0].kind,
        DiagnosticKind::UnexpectedToken { expected: TokenKind::Semi, found: TokenKind::Eof }
    );
    assert_eq!(errors[0].span, Span { start: 9, end: 9 });
}

#[test]
fn every_failed_statement_is_reported() {
    let errors = parse_str("let 1; let y = 2; let = 3; return ;").unwrap_err();
    assert_eq!(errors.len(), 3);
    assert_eq!(
        errors[0].kind,
        DiagnosticKind::UnexpectedToken {
            expected: TokenKind::Ident,
            found: TokenKind::Literal { kind: lexer::Literal::Int }
        }
    );
    assert_eq!(
        errors[1].kind,
        DiagnosticKind::UnexpectedToken { expected: TokenKind::Ident, found: TokenKind::Eq }
    );
    assert_eq!(errors[2].kind, DiagnosticKind::ExpectedExpression { found: TokenKind::Semi });
}

#[test]
fn literal_values() {
    let statements = parse_str("let s = \"hé\"; let f = 1.5; let b = false; let n = 2147483647;").unwrap();
    assert_eq!(statements.len(), 4);
    let values: Vec<&Expression> = statements
        .iter()
        .map(|s| match s {
            Statement::Let { value, .. } => value,
            _ => panic!(),
        })
        .collect();
    assert!(matches!(values[0], Expression::Literal(Literal::Str(s)) if s == "hé"));
    assert!(matches!(values[1], Expression::Literal(Literal::Float(t)) if t == "1.5"));
    assert!(matches!(values[2], Expression::Literal(Literal::Bool(false))));
    assert_eq!(int_value(values[3]), 2147483647);
}

#[test]
fn invalid_literals_are_diagnostics() {
    let errors = parse_str("let n = 2147483648; let s = \"open;").unwrap_err();
    assert_eq!(errors.len(), 2);
    assert_eq!(errors[0].kind, DiagnosticKind::InvalidLiteral { kind: lexer::Literal::Int });
    assert_eq!(
        errors[1].kind,
        DiagnosticKind::InvalidLiteral { kind: lexer::Literal::Str { terminated: false } }
    );
}

#[test]
fn empty_program() {
    assert_eq!(parse_str("").unwrap().len(), 0);
    assert_eq!(parse_str("  // only a comment\n").unwrap().len(), 0);
}

#[test]
fn spans_outside_the_source_are_diagnostics() {
    let mut files = Files::new();
    let main = files.add("main", "x");
    let tokens = vec![
        lexer::Token { kind: lexer::TokenKind::Literal { kind: lexer::Literal::Int }, span: Span { start: 5, end: 9 } },
        lexer::Token { kind: lexer::TokenKind::Eof, span: Span { start: 1, end: 1 } },
    ];
    let errors = parse(main, "x", &tokens).unwrap_err();
    assert_eq!(errors[0].kind, DiagnosticKind::SpanOutsideSource);
}

#[test]
fn filter_drops_trivia() {
    let tokens = tokenize("let /* c */ x // d\n = 1 # 2;");
    let filtered = filter_tokens(&tokens);
    let kinds: Vec<TokenKind> = filtered.iter().map(|t| t.kind).collect();
    assert_eq!(
        kinds,
        vec![
            TokenKind::Let,
            TokenKind::Ident,
            TokenKind::Eq,
            TokenKind::Literal { kind: lexer::Literal::Int },
            TokenKind::Literal { kind: lexer::Literal::Int },
            TokenKind::Semi,
            TokenKind::Eof
        ]
    );
    assert_eq!(filtered[1].span, Span { start: 12, end: 13 });
    assert_eq!(TokenKind::from_lexer(lexer::TokenKind::Whitespace), None);
    assert_eq!(TokenKind::from_lexer(lexer::TokenKind::Pound), None);
    assert_eq!(TokenKind::from_lexer(lexer::TokenKind::Star), Some(TokenKind::Star));
}

#[test]
fn operators_from_tokens() {
    assert!(matches!(Operator::from_token(TokenKind::BangEq), Some(Operator::NotEq)));
    assert!(matches!(Operator::from_token(TokenKind::Bang), Some(Operator::Not)));
    assert!(matches!(Operator::from_token(TokenKind::Slash), Some(Operator::Slash)));
    assert!(Operator::from_token(TokenKind::Semi).is_none());
}

#[test]
fn literals_from_text() {
    assert!(matches!(Literal::from_token_literal(lexer::Literal::Int, "042"), Some(Literal::Int(42))));
    assert!(Literal::from_token_literal(lexer::Literal::Int, "4x").is_none());
    assert!(Literal::from_token_literal(lexer::Literal::Int, "").is_none());
    assert!(matches!(Literal::from_token_literal(lexer::Literal::Bool, "true"), Some(Literal::Bool(true))));
    assert!(Literal::from_token_literal(lexer::Literal::Bool, "yes").is_none());
    assert!(matches!(
        Literal::from_token_literal(lexer::Literal::Char { terminated: true }, "'é'"),
        Some(Literal::Char('é'))
    ));
    assert!(Literal::from_token_literal(lexer::Literal::Char { terminated: false }, "'a").is_none());
    assert!(matches!(
        Literal::from_token_literal(lexer::Literal::Str { terminated: true }, "\"abc\""),
        Some(Literal::Str(s)) if s == "abc"
    ));
    assert!(matches!(
        Literal::from_token_literal(lexer::Literal::Str { terminated: true }, "\"\""),
        Some(Literal::Str(s)) if s.is_empty()
    ));
}
