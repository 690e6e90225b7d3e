//! The scanner: a single forward pass over the characters of the source, with
//! at most one character of lookahead, that yields a gap-free token stream.
use vstd::prelude::*;
use crate::lexer::{LexerToken, Literal, Span, Token, TokenKind};
use crate::text::{spells, byte_len, byte_offset, chars_of, lemma_byte_len_is_encoding_len, lemma_byte_offset_mono, utf8_width};

verus! {

/// Whether `c` has the Unicode `Alphabetic` property.
pub uninterp spec fn alphabetic(c: char) -> bool;

/// Whether `c` has a Unicode numeric general category (`Nd`, `Nl` or `No`).
pub uninterp spec fn numeric(c: char) -> bool;

/// Relies on `char::is_alphabetic`, which reports the `Alphabetic` property.
#[verifier::external_body]
fn is_alphabetic(c: char) -> (r: bool)
    ensures
        r == alphabetic(c),
{
    c.is_alphabetic()
}

/// Relies on `char::is_numeric`, which reports the numeric general categories.
#[verifier::external_body]
fn is_numeric(c: char) -> (r: bool)
    ensures
        r == numeric(c),
{
    c.is_numeric()
}

/// The `Pattern_White_Space` set, which is stable across Unicode versions.
pub open spec fn is_pattern_whitespace(c: char) -> bool {
    ||| c == '\u{0009}'
    ||| c == '\u{000A}'
    ||| c == '\u{000B}'
    ||| c == '\u{000C}'
    ||| c == '\u{000D}'
    ||| c == '\u{0020}'
    ||| c == '\u{0085}'
    ||| c == '\u{200E}'
    ||| c == '\u{200F}'
    ||| c == '\u{2028}'
    ||| c == '\u{2029}'
}

/// Characters that may start an identifier.
pub open spec fn is_ident_start(c: char) -> bool {
    alphabetic(c) || c == '_'
}

pub open spec fn is_digit(c: char) -> bool {
    '0' <= c && c <= '9'
}

/// The classes of character that the scanner consumes in runs.
#[derive(Clone, Copy, Debug, PartialEq, Eq, Structural)]
pub enum CharClass {
    Whitespace,
    IdentContinue,
    Digit,
    NotNewline,
    NotQuote,
}

pub open spec fn in_class(cls: CharClass, c: char) -> bool {
    match cls {
        CharClass::Whitespace => is_pattern_whitespace(c),
        CharClass::IdentContinue => is_ident_start(c) || numeric(c),
        CharClass::Digit => is_digit(c),
        CharClass::NotNewline => c != '\n',
        CharClass::NotQuote => c != '"',
    }
}

/// End of the maximal run of `cls` characters of `s` that starts at `i`.
pub open spec fn run_end(s: Seq<char>, i: int, cls: CharClass) -> int
    decreases s.len() - i,
{
    if 0 <= i < s.len() && in_class(cls, s[i]) {
        run_end(s, i + 1, cls)
    } else {
        i
    }
}

/// End of a block comment whose body is scanned from `j` at nesting `depth`,
/// and whether its closing marker was found.
pub open spec fn block_end(s: Seq<char>, j: int, depth: nat) -> (int, bool)
    decreases s.len() - j,
{
    if !(0 <= j < s.len()) {
        (s.len() as int, false)
    } else if j + 1 < s.len() && s[j] == '*' && s[j + 1] == '/' {
        if depth <= 1 {
            (j + 2, true)
        } else {
            block_end(s, j + 2, (depth - 1) as nat)
        }
    } else if j + 1 < s.len() && s[j] == '/' && s[j + 1] == '*' {
        block_end(s, j + 2, depth + 1)
    } else {
        block_end(s, j + 1, depth)
    }
}

/// The kind of an identifier-shaped word: a keyword, a boolean literal, or an identifier.
pub open spec fn keyword_kind(w: Seq<char>) -> TokenKind {
    if w == seq!['l', 'e', 't'] {
        TokenKind::Let
    } else if w == seq!['f', 'u', 'n'] {
        TokenKind::Fun
    } else if w == seq!['r', 'e', 't', 'u', 'r', 'n'] {
        TokenKind::Return
    } else if w == seq!['t', 'r', 'u', 'e'] || w == seq!['f', 'a', 'l', 's', 'e'] {
        TokenKind::Literal { kind: Literal::Bool }
    } else {
        TokenKind::Ident
    }
}

/// The table of single-character punctuation.
pub open spec fn punct_kind(c: char) -> Option<TokenKind> {
    if c == ';' {
        Some(TokenKind::Semi)
    } else if c == ',' {
        Some(TokenKind::Comma)
    } else if c == '.' {
        Some(TokenKind::Dot)
    } else if c == '(' {
        Some(TokenKind::OpenParen)
    } else if c == ')' {
        Some(TokenKind::CloseParen)
    } else if c == '{' {
        Some(TokenKind::OpenBrace)
    } else if c == '}' {
        Some(TokenKind::CloseBrace)
    } else if c == '[' {
        Some(TokenKind::OpenBracket)
    } else if c == ']' {
        Some(TokenKind::CloseBracket)
    } else if c == '@' {
        Some(TokenKind::At)
    } else if c == '#' {
        Some(TokenKind::Pound)
    } else if c == '~' {
        Some(TokenKind::Tilde)
    } else if c == '?' {
        Some(TokenKind::Question)
    } else if c == ':' {
        Some(TokenKind::Colon)
    } else if c == '$' {
        Some(TokenKind::Dollar)
    } else if c == '-' {
        Some(TokenKind::Minus)
    } else if c == '&' {
        Some(TokenKind::And)
    } else if c == '|' {
        Some(TokenKind::Or)
    } else if c == '+' {
        Some(TokenKind::Plus)
    } else if c == '*' {
        Some(TokenKind::Star)
    } else if c == '^' {
        Some(TokenKind::Caret)
    } else if c == '%' {
        Some(TokenKind::Percent)
    } else {
        None
    }
}

/// The character after position `i`, if any.
pub open spec fn next_char(s: Seq<char>, i: int) -> Option<char> {
    if 0 <= i + 1 < s.len() {
        Some(s[i + 1])
    } else {
        None
    }
}

/// The token that starts at character position `i` of `s`: its kind and the
/// position just past it.
pub open spec fn lex_at(s: Seq<char>, i: int) -> (TokenKind, int) {
    let c = s[i];
    if is_pattern_whitespace(c) {
        (TokenKind::Whitespace, run_end(s, i + 1, CharClass::Whitespace))
    } else if c == '!' {
        with_eq_char(s, i, '=', TokenKind::BangEq, TokenKind::Bang)
    } else if c == '=' {
        with_eq_char(s, i, '=', TokenKind::EqEq, TokenKind::Eq)
    } else if c == '<' {
        with_eq_char(s, i, '=', TokenKind::LtEq, TokenKind::Lt)
    } else if c == '>' {
        with_eq_char(s, i, '=', TokenKind::GtEq, TokenKind::Gt)
    } else if c == '/' {
        if next_char(s, i) == Some('/') {
            (TokenKind::LineComment, run_end(s, i + 1, CharClass::NotNewline))
        } else if next_char(s, i) == Some('*') {
            let (e, t) = block_end(s, i + 2, 1);
            (TokenKind::BlockComment { terminated: t }, e)
        } else {
            (TokenKind::Slash, i + 1)
        }
    } else if is_digit(c) {
        let e = run_end(s, i + 1, CharClass::Digit);
        if e + 1 < s.len() && s[e] == '.' && is_digit(s[e + 1]) {
            (TokenKind::Literal { kind: Literal::Float }, run_end(s, e + 2, CharClass::Digit))
        } else {
            (TokenKind::Literal { kind: Literal::Int }, e)
        }
    } else if c == '"' {
        let e = run_end(s, i + 1, CharClass::NotQuote);
        if e < s.len() {
            (TokenKind::Literal { kind: Literal::Str { terminated: true } }, e + 1)
        } else {
            (TokenKind::Literal { kind: Literal::Str { terminated: false } }, e)
        }
    } else if punct_kind(c) is Some {
        (punct_kind(c)->0, i + 1)
    } else if is_ident_start(c) {
        let e = run_end(s, i + 1, CharClass::IdentContinue);
        (keyword_kind(s.subrange(i, e)), e)
    } else {
        (TokenKind::Unknown, i + 1)
    }
}

/// The tokens of `s` from character position `i` on, with byte spans.
pub open spec fn tokens_from(s: Seq<char>, i: int) -> Seq<LexerToken>
    decreases s.len() - i,
{
    if !(0 <= i < s.len()) {
        seq![]
    } else {
        let (k, e) = lex_at(s, i);
        if e <= i || e > s.len() {
            seq![]
        } else {
            seq![
                Token {
                    kind: k,
                    span: Span { start: byte_offset(s, i) as usize, end: byte_offset(s, e) as usize },
                },
            ] + tokens_from(s, e)
        }
    }
}

/// The full token stream of `s`: its tokens, then `Eof` at the byte length.
pub open spec fn spec_scan(s: Seq<char>) -> Seq<LexerToken> {
    tokens_from(s, 0).push(
        Token {
            kind: TokenKind::Eof,
            span: Span { start: byte_len(s) as usize, end: byte_len(s) as usize },
        },
    )
}

pub proof fn lemma_run_end_bounds(s: Seq<char>, i: int, cls: CharClass)
    requires
        0 <= i <= s.len(),
    ensures
        i <= run_end(s, i, cls) <= s.len(),
        forall|k: int| i <= k < run_end(s, i, cls) ==> #[trigger] in_class(cls, s[k]),
        run_end(s, i, cls) < s.len() ==> !in_class(cls, s[run_end(s, i, cls)]),
    decreases s.len() - i,
{
    if i < s.len() && in_class(cls, s[i]) {
        lemma_run_end_bounds(s, i + 1, cls);
    }
}

pub proof fn lemma_block_end_bounds(s: Seq<char>, j: int, depth: nat)
    requires
        0 <= j <= s.len(),
    ensures
        j <= block_end(s, j, depth).0 <= s.len(),
        !block_end(s, j, depth).1 ==> block_end(s, j, depth).0 == s.len(),
        block_end(s, j, depth).1 ==> block_end(s, j, depth).0 >= j + 2,
    decreases s.len() - j,
{
    if j < s.len() {
        if j + 1 < s.len() && s[j] == '*' && s[j + 1] == '/' {
            if depth > 1 {
                lemma_block_end_bounds(s, j + 2, (depth - 1) as nat);
            }
        } else if j + 1 < s.len() && s[j] == '/' && s[j + 1] == '*' {
            lemma_block_end_bounds(s, j + 2, depth + 1);
        } else {
            lemma_block_end_bounds(s, j + 1, depth);
        }
    }
}

/// Every token is non-empty and stays within the input.
pub proof fn lemma_lex_at_bounds(s: Seq<char>, i: int)
    requires
        0 <= i < s.len(),
    ensures
        i < lex_at(s, i).1 <= s.len(),
{
    let c = s[i];
    lemma_run_end_bounds(s, i + 1, CharClass::Whitespace);
    lemma_run_end_bounds(s, i + 1, CharClass::NotNewline);
    lemma_run_end_bounds(s, i + 1, CharClass::Digit);
    lemma_run_end_bounds(s, i + 1, CharClass::NotQuote);
    lemma_run_end_bounds(s, i + 1, CharClass::IdentContinue);
    if i + 2 <= s.len() {
        lemma_block_end_bounds(s, i + 2, 1);
    }
    let e = run_end(s, i + 1, CharClass::Digit);
    if e + 1 < s.len() {
        lemma_run_end_bounds(s, e + 2, CharClass::Digit);
    }
}


/// A one-character operator at `i` that becomes `is` when followed by `ch`.
pub open spec fn with_eq_char(s: Seq<char>, i: int, ch: char, is: TokenKind, or: TokenKind) -> (TokenKind, int) {
    if next_char(s, i) == Some(ch) {
        (is, i + 2)
    } else {
        (or, i + 1)
    }
}

/// Whether `c` is pattern whitespace.
pub fn is_whitespace(c: char) -> (r: bool)
    ensures
        r == is_pattern_whitespace(c),
{
    c == '\u{0009}' || c == '\u{000A}' || c == '\u{000B}' || c == '\u{000C}' || c == '\u{000D}'
        || c == '\u{0020}' || c == '\u{0085}' || c == '\u{200E}' || c == '\u{200F}'
        || c == '\u{2028}' || c == '\u{2029}'
}

/// Whether `c` may start an identifier.
pub fn is_identifier(c: char) -> (r: bool)
    ensures
        r == is_ident_start(c),
{
    is_alphabetic(c) || c == '_'
}

fn class_contains(cls: CharClass, c: char) -> (r: bool)
    ensures
        r == in_class(cls, c),
{
    match cls {
        CharClass::Whitespace => is_whitespace(c),
        CharClass::IdentContinue => is_identifier(c) || is_numeric(c),
        CharClass::Digit => '0' <= c && c <= '9',
        CharClass::NotNewline => c != '\n',
        CharClass::NotQuote => c != '"',
    }
}

fn punct(c: char) -> (r: Option<TokenKind>)
    ensures
        r == punct_kind(c),
{
    match c {
        ';' => Some(TokenKind::Semi),
        ',' => Some(TokenKind::Comma),
        '.' => Some(TokenKind::Dot),
        '(' => Some(TokenKind::OpenParen),
        ')' => Some(TokenKind::CloseParen),
        '{' => Some(TokenKind::OpenBrace),
        '}' => Some(TokenKind::CloseBrace),
        '[' => Some(TokenKind::OpenBracket),
        ']' => Some(TokenKind::CloseBracket),
        '@' => Some(TokenKind::At),
        '#' => Some(TokenKind::Pound),
        '~' => Some(TokenKind::Tilde),
        '?' => Some(TokenKind::Question),
        ':' => Some(TokenKind::Colon),
        '$' => Some(TokenKind::Dollar),
        '-' => Some(TokenKind::Minus),
        '&' => Some(TokenKind::And),
        '|' => Some(TokenKind::Or),
        '+' => Some(TokenKind::Plus),
        '*' => Some(TokenKind::Star),
        '^' => Some(TokenKind::Caret),
        '%' => Some(TokenKind::Percent),
        _ => None,
    }
}

fn keyword(chars: &Vec<char>, start: usize, end: usize) -> (r: TokenKind)
    requires
        start <= end <= chars@.len(),
    ensures
        r == keyword_kind(chars@.subrange(start as int, end as int)),
{
    let let_word = ['l', 'e', 't'];
    let fun_word = ['f', 'u', 'n'];
    let return_word = ['r', 'e', 't', 'u', 'r', 'n'];
    let true_word = ['t', 'r', 'u', 'e'];
    let false_word = ['f', 'a', 'l', 's', 'e'];
    assert(let_word@ == seq!['l', 'e', 't']);
    assert(fun_word@ == seq!['f', 'u', 'n']);
    assert(return_word@ == seq!['r', 'e', 't', 'u', 'r', 'n']);
    assert(true_word@ == seq!['t', 'r', 'u', 'e']);
    assert(false_word@ == seq!['f', 'a', 'l', 's', 'e']);
    if spells(chars, start, end, &let_word) {
        TokenKind::Let
    } else if spells(chars, start, end, &fun_word) {
        TokenKind::Fun
    } else if spells(chars, start, end, &return_word) {
        TokenKind::Return
    } else if spells(chars, start, end, &true_word) || spells(chars, start, end, &false_word) {
        TokenKind::Literal { kind: Literal::Bool }
    } else {
        TokenKind::Ident
    }
}

/// The cursor of one scan: the characters of the source, the position of the
/// next character, and the byte offset of that position.
pub struct Scanner {
    pub chars: Vec<char>,
    pub pos: usize,
    pub offset: usize,
}

impl Scanner {
    /// The cursor is within the characters, and `offset` is its byte offset.
    pub open spec fn wf(&self) -> bool {
        &&& self.pos <= self.chars@.len()
        &&& self.chars@.len() <= usize::MAX
        &&& self.offset == byte_offset(self.chars@, self.pos as int)
        &&& byte_len(self.chars@) <= usize::MAX
    }

    /// A cursor at the start of `src`.
    pub fn new(src: &str) -> (r: Scanner)
        ensures
            r.wf(),
            r.chars@ == src@,
            r.pos == 0,
    {
        let chars = chars_of(src);
        // The byte length of any string fits in `usize`.
        let byte_count = src.as_bytes().len();
        proof {
            lemma_byte_len_is_encoding_len(src@);
            lemma_byte_offset_mono(src@, 0, src@.len() as int);
        }
        assert(byte_len(src@) == byte_count);
        Scanner { chars, pos: 0, offset: 0 }
    }

    /// The next character, if any, without consuming it.
    pub fn peek(&self) -> (r: Option<char>)
        requires
            self.wf(),
        ensures
            r == (if self.pos < self.chars@.len() {
                Some(self.chars@[self.pos as int])
            } else {
                None::<char>
            }),
    {
        if self.pos < self.chars.len() {
            Some(self.chars[self.pos])
        } else {
            None
        }
    }

    /// Consumes the next character.
    pub fn discard(&mut self)
        requires
            old(self).wf(),
            old(self).pos < old(self).chars@.len(),
        ensures
            final(self).wf(),
            final(self).chars@ == old(self).chars@,
            final(self).pos == old(self).pos + 1,
    {
        proof {
            lemma_byte_offset_mono(self.chars@, self.pos + 1, self.chars@.len() as int);
        }
        self.offset = self.offset + utf8_width(self.chars[self.pos]);
        self.pos = self.pos + 1;
    }

    /// Consumes the maximal run of `cls` characters at the cursor.
    pub fn eat_while(&mut self, cls: CharClass)
        requires
            old(self).wf(),
        ensures
            final(self).wf(),
            final(self).chars@ == old(self).chars@,
            final(self).pos == run_end(old(self).chars@, old(self).pos as int, cls),
            old(self).pos <= final(self).pos,
    {
        proof {
            lemma_run_end_bounds(self.chars@, self.pos as int, cls);
        }
        while self.pos < self.chars.len() && class_contains(cls, self.chars[self.pos])
            invariant
                self.wf(),
                self.chars@ == old(self).chars@,
                run_end(self.chars@, self.pos as int, cls) == run_end(
                    old(self).chars@,
                    old(self).pos as int,
                    cls,
                ),
            decreases self.chars@.len() - self.pos,
        {
            self.discard();
        }
    }

    /// Consumes `ch` if it comes next, and tells which of two kinds that makes.
    pub fn match_advance_or(&mut self, ch: char, is: TokenKind, or: TokenKind) -> (r: TokenKind)
        requires
            old(self).wf(),
        ensures
            final(self).wf(),
            final(self).chars@ == old(self).chars@,
            (r, final(self).pos as int) == with_eq_char(old(self).chars@, old(self).pos - 1, ch, is, or),
    {
        if self.peek() == Some(ch) {
            self.discard();
            is
        } else {
            or
        }
    }

    /// Consumes the body of a block comment whose opening marker has been read.
    pub fn block_comment(&mut self) -> (r: bool)
        requires
            old(self).wf(),
            old(self).pos >= 2,
        ensures
            final(self).wf(),
            final(self).chars@ == old(self).chars@,
            (final(self).pos as int, r) == block_end(old(self).chars@, old(self).pos as int, 1),
    {
        let mut depth: usize = 1;
        loop
            invariant
                self.wf(),
                self.chars@ == old(self).chars@,
                1 <= depth <= self.pos,
                block_end(self.chars@, self.pos as int, depth as nat) == block_end(
                    old(self).chars@,
                    old(self).pos as int,
                    1,
                ),
            decreases self.chars@.len() - self.pos,
        {
            if self.pos >= self.chars.len() {
                return false;
            }
            let c = self.chars[self.pos];
            let closes = c == '*' && self.pos + 1 < self.chars.len() && self.chars[self.pos + 1] == '/';
            let opens = c == '/' && self.pos + 1 < self.chars.len() && self.chars[self.pos + 1] == '*';
            if closes {
                self.discard();
                self.discard();
                if depth == 1 {
                    return true;
                }
                depth = depth - 1;
            } else if opens {
                self.discard();
                self.discard();
                depth = depth + 1;
            } else {
                self.discard();
            }
        }
    }

    /// Consumes the rest of a numeral whose first digit has been read.
    pub fn number(&mut self) -> (r: TokenKind)
        requires
            old(self).wf(),
            old(self).pos >= 1,
        ensures
            final(self).wf(),
            final(self).chars@ == old(self).chars@,
            ({
                let s = old(self).chars@;
                let e = run_end(s, old(self).pos as int, CharClass::Digit);
                if e + 1 < s.len() && s[e] == '.' && is_digit(s[e + 1]) {
                    r == TokenKind::Literal { kind: Literal::Float }
                        && final(self).pos == run_end(s, e + 2, CharClass::Digit)
                } else {
                    r == TokenKind::Literal { kind: Literal::Int } && final(self).pos == e
                }
            }),
    {
        self.eat_while(CharClass::Digit);
        let n = self.chars.len();
        if n - self.pos >= 2 && self.chars[self.pos] == '.' && '0' <= self.chars[self.pos + 1]
            && self.chars[self.pos + 1] <= '9' {
            self.discard();
            self.discard();
            self.eat_while(CharClass::Digit);
            TokenKind::Literal { kind: Literal::Float }
        } else {
            TokenKind::Literal { kind: Literal::Int }
        }
    }

    /// Scans the token at the cursor, or returns `None` at the end of input.
    pub fn next_token(&mut self) -> (r: Option<LexerToken>)
        requires
            old(self).wf(),
        ensures
            final(self).wf(),
            final(self).chars@ == old(self).chars@,
            old(self).pos < old(self).chars@.len() ==> ({
                let s = old(self).chars@;
                let i = old(self).pos as int;
                let (k, e) = lex_at(s, i);
                &&& final(self).pos == e
                &&& r == Some(
                    Token {
                        kind: k,
                        span: Span { start: byte_offset(s, i) as usize, end: byte_offset(s, e) as usize },
                    },
                )
            }),
            old(self).pos >= old(self).chars@.len() ==> r is None && final(self).pos == old(self).pos,
    {
        if self.pos >= self.chars.len() {
            return None;
        }
        let ghost s = self.chars@;
        let ghost i = self.pos as int;
        let start = self.offset;
        let first = self.pos;
        let c = self.chars[self.pos];
        self.discard();
        proof {
            lemma_run_end_bounds(s, i + 1, CharClass::Digit);
        }
        let kind = if is_whitespace(c) {
            self.eat_while(CharClass::Whitespace);
            TokenKind::Whitespace
        } else if c == '!' {
            self.match_advance_or('=', TokenKind::BangEq, TokenKind::Bang)
        } else if c == '=' {
            self.match_advance_or('=', TokenKind::EqEq, TokenKind::Eq)
        } else if c == '<' {
            self.match_advance_or('=', TokenKind::LtEq, TokenKind::Lt)
        } else if c == '>' {
            self.match_advance_or('=', TokenKind::GtEq, TokenKind::Gt)
        } else if c == '/' {
            let next = self.peek();
            if next == Some('/') {
                self.eat_while(CharClass::NotNewline);
                TokenKind::LineComment
            } else if next == Some('*') {
                self.discard();
                let terminated = self.block_comment();
                TokenKind::BlockComment { terminated }
            } else {
                TokenKind::Slash
            }
        } else if '0' <= c && c <= '9' {
            self.number()
        } else if c == '"' {
            self.eat_while(CharClass::NotQuote);
            if self.pos < self.chars.len() {
                self.discard();
                TokenKind::Literal { kind: Literal::Str { terminated: true } }
            } else {
                TokenKind::Literal { kind: Literal::Str { terminated: false } }
            }
        } else {
            match punct(c) {
                Some(k) => k,
                None => {
                    if is_identifier(c) {
                        self.eat_while(CharClass::IdentContinue);
                        keyword(&self.chars, first, self.pos)
                    } else {
                        TokenKind::Unknown
                    }
                },
            }
        };
        proof {
            lemma_lex_at_bounds(s, i);
        }
        Some(Token { kind, span: Span { start, end: self.offset } })
    }
}

/// Scans `src` into its full token stream: every character belongs to exactly
/// one token, trivia included, and the stream ends with one `Eof` token whose
/// span is empty and sits at the byte length of `src`.
pub fn scan(src: &str) -> (r: Vec<LexerToken>)
    ensures
        r@ == spec_scan(src@),
{
    let n = src.as_bytes().len();
    proof {
        lemma_byte_len_is_encoding_len(src@);
    }
    let mut scanner = Scanner::new(src);
    let mut out: Vec<LexerToken> = Vec::new();
    loop
        invariant
            scanner.wf(),
            scanner.chars@ == src@,
            out@ + tokens_from(src@, scanner.pos as int) == tokens_from(src@, 0),
        ensures
            scanner.wf(),
            scanner.chars@ == src@,
            out@ == tokens_from(src@, 0),
        decreases src@.len() - scanner.pos,
    {
        let ghost i = scanner.pos as int;
        match scanner.next_token() {
            Some(t) => {
                proof {
                    lemma_lex_at_bounds(src@, i);
                }
                out.push(t);
                assert(out@ + tokens_from(src@, scanner.pos as int) =~= tokens_from(src@, 0));
            },
            None => {
                assert(out@ + tokens_from(src@, scanner.pos as int) =~= out@);
                break;
            },
        }
    }
    out.push(Token { kind: TokenKind::Eof, span: Span { start: n, end: n } });
    out
}

} // verus!
