use codespan::Files;
use propane::lexer::{tokenize, LexerToken, Literal, Span, TokenKind};

fn kinds(src: &str) -> Vec<TokenKind> {
    tokenize(src).iter().map(|t| t.kind).collect()
}

fn text<'a>(src: &'a str, t: &LexerToken) -> &'a str {
    &src[t.span.start..t.span.end]
}

#[test]
fn it_works() {
    let mut files = Files::new();

    let main = files.add(
        "main",
        r#"
            "A string!"
// this is a comment
(( )){} // grouping stuff
!*+-/=<> <= == // operators
let x = 3;
        "#,
    );

    let tokens = tokenize(files.source(main));

    for token in &tokens {
        let span = codespan::Span::new(token.span.start as u32, token.span.end as u32);
        assert!(files.source_slice(main, span).is_ok());
    }
    let significant: Vec<TokenKind> = tokens
        .iter()
        .map(|t| t.kind)
        .filter(|k| {
            !matches!(k, TokenKind::Whitespace | TokenKind::LineComment)
        })
        .collect();
    assert_eq!(
        significant,
        vec![
            TokenKind::Literal { kind: Literal::Str { terminated: true } },
            TokenKind::OpenParen,
            TokenKind::OpenParen,
            TokenKind::CloseParen,
            TokenKind::CloseParen,
            TokenKind::OpenBrace,
            TokenKind::CloseBrace,
            TokenKind::Bang,
            TokenKind::Star,
            TokenKind::Plus,
            TokenKind::Minus,
            TokenKind::Slash,
            TokenKind::Eq,
            TokenKind::Lt,
            TokenKind::Gt,
            TokenKind::LtEq,
            TokenKind::EqEq,
            TokenKind::Let,
            TokenKind::Ident,
            TokenKind::Eq,
            TokenKind::Literal { kind: Literal::Int },
            TokenKind::Semi,
            TokenKind::Eof,
        ]
    );
}

#[test]
fn spans_tile_the_input() {
    let src = "let é = \"ünï\"; // ☃\n  x1 == 2.5 /* a /* b */ c */ №";
    let tokens = tokenize(src);
    assert_eq!(tokens[0].span.start, 0);
    for pair in tokens.windows(2) {
        assert_eq!(pair[0].span.end, pair[1].span.start);
        assert!(pair[0].span.start < pair[0].span.end);
    }
    let total: usize = tokens.iter().map(|t| t.span.end - t.span.start).sum();
    assert_eq!(total, src.len());
    let joined: String = tokens.iter().map(|t| text(src, t)).collect();
    assert_eq!(joined, src);
}

#[test]
fn stream_ends_with_one_eof() {
    for src in ["", "x", "let a = 1;", "\"open", "ü"] {
        let tokens = tokenize(src);
        let last = tokens.last().unwrap();
        assert_eq!(last.kind, TokenKind::Eof);
        assert_eq!(last.span, Span { start: src.len(), end: src.len() });
        assert_eq!(tokens.iter().filter(|t| t.kind == TokenKind::Eof).count(), 1);
    }
    assert_eq!(kinds(""), vec![TokenKind::Eof]);
}

#[test]
fn rescanning_a_token_keeps_its_kind() {
    let src = "let x1 = 12.5 + 7; \"s\" \"open /* /* */ */ // c\n != ! == = <= > fun return true _a №";
    let tokens = tokenize(src);
    for t in &tokens[..tokens.len() - 1] {
        let again = tokenize(text(src, t));
        assert_eq!(again[0].kind, t.kind);
        assert_eq!(again[0].span.end, t.span.end - t.span.start);
    }
}

#[test]
fn double_equals_is_one_token() {
    assert_eq!(kinds("=="), vec![TokenKind::EqEq, TokenKind::Eof]);
    assert_eq!(kinds("!"), vec![TokenKind::Bang, TokenKind::Eof]);
    assert_eq!(kinds("!="), vec![TokenKind::BangEq, TokenKind::Eof]);
    assert_eq!(kinds("="), vec![TokenKind::Eq, TokenKind::Eof]);
    assert_eq!(kinds("<=>="), vec![TokenKind::LtEq, TokenKind::GtEq, TokenKind::Eof]);
    assert_eq!(kinds("==="), vec![TokenKind::EqEq, TokenKind::Eq, TokenKind::Eof]);
}

#[test]
fn unterminated_string_runs_to_end() {
    let tokens = tokenize("\"abc");
    assert_eq!(tokens.len(), 2);
    assert_eq!(tokens[0].kind, TokenKind::Literal { kind: Literal::Str { terminated: false } });
    assert_eq!(tokens[0].span, Span { start: 0, end: 4 });
    assert_eq!(tokens[1].kind, TokenKind::Eof);
}

#[test]
fn terminated_string_includes_quotes() {
    let tokens = tokenize("\"ab\"c");
    assert_eq!(tokens[0].kind, TokenKind::Literal { kind: Literal::Str { terminated: true } });
    assert_eq!(tokens[0].span, Span { start: 0, end: 4 });
    assert_eq!(tokens[1].kind, TokenKind::Ident);
}

#[test]
fn keyword_prefix_is_an_identifier() {
    assert_eq!(kinds("letx"), vec![TokenKind::Ident, TokenKind::Eof]);
    assert_eq!(kinds("let"), vec![TokenKind::Let, TokenKind::Eof]);
    assert_eq!(kinds("fun"), vec![TokenKind::Fun, TokenKind::Eof]);
    assert_eq!(kinds("return"), vec![TokenKind::Return, TokenKind::Eof]);
    assert_eq!(
        kinds("true false"),
        vec![
            TokenKind::Literal { kind: Literal::Bool },
            TokenKind::Whitespace,
            TokenKind::Literal { kind: Literal::Bool },
            TokenKind::Eof
        ]
    );
}

#[test]
fn unicode_identifiers_and_numerals() {
    let tokens = tokenize("héllo a١ _x");
    assert_eq!(tokens[0].kind, TokenKind::Ident);
    assert_eq!(tokens[0].span, Span { start: 0, end: 6 });
    assert_eq!(tokens[2].kind, TokenKind::Ident);
    assert_eq!(tokens[2].span, Span { start: 7, end: 10 });
    assert_eq!(tokens[4].kind, TokenKind::Ident);
    assert_eq!(kinds("١"), vec![TokenKind::Unknown, TokenKind::Eof]);
}

#[test]
fn numerals() {
    assert_eq!(kinds("42"), vec![TokenKind::Literal { kind: Literal::Int }, TokenKind::Eof]);
    assert_eq!(kinds("4.25"), vec![TokenKind::Literal { kind: Literal::Float }, TokenKind::Eof]);
    assert_eq!(
        kinds("4."),
        vec![TokenKind::Literal { kind: Literal::Int }, TokenKind::Dot, TokenKind::Eof]
    );
    assert_eq!(
        kinds("12ab"),
        vec![TokenKind::Literal { kind: Literal::Int }, TokenKind::Ident, TokenKind::Eof]
    );
}

#[test]
fn comments() {
    let tokens = tokenize("// note\nx");
    assert_eq!(tokens[0].kind, TokenKind::LineComment);
    assert_eq!(tokens[0].span, Span { start: 0, end: 7 });
    assert_eq!(tokens[1].kind, TokenKind::Whitespace);
    assert_eq!(
        kinds("/* a /* b */ c */x"),
        vec![TokenKind::BlockComment { terminated: true }, TokenKind::Ident, TokenKind::Eof]
    );
    assert_eq!(
        kinds("/* /* */"),
        vec![TokenKind::BlockComment { terminated: false }, TokenKind::Eof]
    );
    assert_eq!(kinds("/"), vec![TokenKind::Slash, TokenKind::Eof]);
}

#[test]
fn whitespace_runs_and_unknowns() {
    let tokens = tokenize(" \t\n\u{2028}x");
    assert_eq!(tokens[0].kind, TokenKind::Whitespace);
    assert_eq!(tokens[0].span, Span { start: 0, end: 6 });
    assert_eq!(kinds("№"), vec![TokenKind::Unknown, TokenKind::Eof]);
    assert_eq!(tokenize("№")[0].span, Span { start: 0, end: 3 });
    assert_eq!(kinds(";,."), vec![TokenKind::Semi, TokenKind::Comma, TokenKind::Dot, TokenKind::Eof]);
}
