//! Laws of the token stream: spans tile the input, the stream ends in one
//! `Eof`, and each token rescans to its own kind.
use vstd::prelude::*;
use vstd::string::StringSliceAdditionalSpecFns;
use crate::lexer::{LexerToken, Literal, Span, Token, TokenKind};
use crate::scanner::{
    block_end, CharClass, in_class, is_digit, is_ident_start, is_pattern_whitespace, keyword_kind, lemma_block_end_bounds,
    lemma_lex_at_bounds, lemma_run_end_bounds, lex_at, next_char, punct_kind, run_end, spec_scan,
    tokens_from,
};
use crate::text::{byte_len, byte_offset, lemma_byte_len_is_encoding_len, lemma_byte_offset_mono};

verus! {

proof fn lemma_keyword_not_eof(w: Seq<char>)
    ensures
        keyword_kind(w) != TokenKind::Eof,
{
}

proof fn lemma_lex_at_not_eof(s: Seq<char>, i: int)
    requires
        0 <= i < s.len(),
    ensures
        lex_at(s, i).0 != TokenKind::Eof,
{
    let c = s[i];
    if punct_kind(c) is Some {
        assert(punct_kind(c)->0 != TokenKind::Eof);
    }
    if is_ident_start(c) {
        lemma_keyword_not_eof(s.subrange(i, run_end(s, i + 1, CharClass::IdentContinue)));
    }
}

proof fn lemma_tokens_from(s: Seq<char>, i: int)
    requires
        0 <= i <= s.len(),
        byte_len(s) <= usize::MAX,
    ensures
        ({
            let t = tokens_from(s, i);
            &&& (t.len() == 0 <==> i == s.len())
            &&& t.len() > 0 ==> t[0].span.start == byte_offset(s, i)
            &&& t.len() > 0 ==> t.last().span.end == byte_len(s)
            &&& forall|k: int| 0 <= k < t.len() ==> #[trigger] t[k].span.start < t[k].span.end
            &&& forall|k: int| 0 <= k < t.len() ==> #[trigger] t[k].kind != TokenKind::Eof
            &&& forall|k: int| 0 <= k < t.len() - 1 ==> #[trigger] t[k].span.end == t[k + 1].span.start
        }),
    decreases s.len() - i,
{
    if i < s.len() {
        lemma_lex_at_bounds(s, i);
        lemma_lex_at_not_eof(s, i);
        let e = lex_at(s, i).1;
        lemma_tokens_from(s, e);
        lemma_byte_offset_mono(s, i, e);
        lemma_byte_offset_mono(s, e, s.len() as int);
        let t = tokens_from(s, i);
        let rest = tokens_from(s, e);
        assert(t == seq![t[0]] + rest);
        assert forall|k: int| 0 <= k < t.len() - 1 implies #[trigger] t[k].span.end
            == t[k + 1].span.start by {
            if k > 0 {
                assert(t[k] == rest[k - 1]);
                assert(t[k + 1] == rest[k]);
            }
        }
        assert forall|k: int| 0 <= k < t.len() implies #[trigger] t[k].span.start
            < t[k].span.end && t[k].kind != TokenKind::Eof by {
            if k > 0 {
                assert(t[k] == rest[k - 1]);
            }
        }
    }
}

/// Spans tile the input: the first token starts at byte 0, each token ends
/// where the next begins, every token but the last is non-empty, and the last
/// ends at the byte length of the source. (Every string held in memory has a
/// byte length that fits in `usize`.)
pub proof fn lemma_spans_cover_input(src: &str)
    requires
        src.spec_bytes().len() <= usize::MAX,
    ensures
        ({
            let t = spec_scan(src@);
            &&& t.len() > 0
            &&& t[0].span.start == 0
            &&& t.last().span.end == src.spec_bytes().len()
            &&& forall|k: int| 0 <= k < t.len() - 1 ==> #[trigger] t[k].span.start < t[k].span.end
            &&& forall|k: int| 0 <= k < t.len() - 1 ==> #[trigger] t[k].span.end == t[k + 1].span.start
        }),
{
    lemma_str_bytes_fit(src);
    lemma_tokens_from(src@, 0);
    let t = spec_scan(src@);
    let body = tokens_from(src@, 0);
    assert forall|k: int| 0 <= k < t.len() - 1 implies #[trigger] t[k].span.start < t[k].span.end
        && t[k].span.end == t[k + 1].span.start by {
        assert(t[k] == body[k]);
        if k < body.len() - 1 {
            assert(body[k].span.end == body[k + 1].span.start);
        }
    }
}

/// The stream ends with exactly one `Eof` token, whose span is empty and sits
/// at the byte length of the source.
pub proof fn lemma_single_eof_at_end(src: &str)
    requires
        src.spec_bytes().len() <= usize::MAX,
    ensures
        ({
            let t = spec_scan(src@);
            &&& t.len() > 0
            &&& t.last() == Token {
                kind: TokenKind::Eof,
                span: Span { start: src.spec_bytes().len() as usize, end: src.spec_bytes().len() as usize },
            }
            &&& forall|k: int| 0 <= k < t.len() - 1 ==> #[trigger] t[k].kind != TokenKind::Eof
        }),
{
    lemma_str_bytes_fit(src);
    lemma_tokens_from(src@, 0);
    let t = spec_scan(src@);
    let body = tokens_from(src@, 0);
    assert forall|k: int| 0 <= k < t.len() - 1 implies #[trigger] t[k].kind != TokenKind::Eof by {
        assert(t[k] == body[k]);
    }
}

proof fn lemma_str_bytes_fit(src: &str)
    requires
        src.spec_bytes().len() <= usize::MAX,
    ensures
        byte_len(src@) == src.spec_bytes().len(),
        byte_len(src@) <= usize::MAX,
{
    lemma_byte_len_is_encoding_len(src@);
}


proof fn lemma_run_end_local(s: Seq<char>, a: int, b: int, j: int, cls: CharClass)
    requires
        0 <= a <= j <= s.len(),
        run_end(s, j, cls) <= b <= s.len(),
    ensures
        run_end(s.subrange(a, b), j - a, cls) == run_end(s, j, cls) - a,
    decreases s.len() - j,
{
    let w = s.subrange(a, b);
    lemma_run_end_bounds(s, j, cls);
    if j < s.len() && in_class(cls, s[j]) {
        lemma_run_end_bounds(s, j + 1, cls);
        lemma_run_end_local(s, a, b, j + 1, cls);
        assert(w[j - a] == s[j]);
    } else if j < b {
        assert(w[j - a] == s[j]);
    }
}

proof fn lemma_block_end_local(s: Seq<char>, a: int, b: int, j: int, d: nat)
    requires
        0 <= a <= j <= s.len(),
        block_end(s, j, d).0 <= b <= s.len(),
    ensures
        block_end(s.subrange(a, b), j - a, d) == (block_end(s, j, d).0 - a, block_end(s, j, d).1),
    decreases s.len() - j,
{
    let w = s.subrange(a, b);
    lemma_block_end_bounds(s, j, d);
    if j < s.len() {
        let pair_close = j + 1 < s.len() && s[j] == '*' && s[j + 1] == '/';
        let pair_open = j + 1 < s.len() && s[j] == '/' && s[j + 1] == '*';
        if pair_close {
            if d > 1 {
                lemma_block_end_bounds(s, j + 2, (d - 1) as nat);
                lemma_block_end_local(s, a, b, j + 2, (d - 1) as nat);
            }
            assert(w[j - a] == s[j] && w[j + 1 - a] == s[j + 1]);
        } else if pair_open {
            lemma_block_end_bounds(s, j + 2, d + 1);
            lemma_block_end_local(s, a, b, j + 2, d + 1);
            assert(w[j - a] == s[j] && w[j + 1 - a] == s[j + 1]);
        } else {
            lemma_block_end_bounds(s, j + 1, d);
            lemma_block_end_local(s, a, b, j + 1, d);
            assert(w[j - a] == s[j]);
            if j + 1 < b {
                assert(w[j + 1 - a] == s[j + 1]);
            }
        }
    }
}

/// The token at position `i`, scanned on its own, has the same kind and the
/// same length: a token's extent is decided by the characters it covers.
pub proof fn lemma_lex_at_local(s: Seq<char>, i: int)
    requires
        0 <= i < s.len(),
    ensures
        lex_at(s.subrange(i, lex_at(s, i).1), 0) == (lex_at(s, i).0, lex_at(s, i).1 - i),
{
    lemma_lex_at_bounds(s, i);
    let e = lex_at(s, i).1;
    let w = s.subrange(i, e);
    let c = s[i];
    assert(w[0] == c);
    if i + 1 < e {
        assert(w[1] == s[i + 1]);
    }
    lemma_run_end_bounds(s, i + 1, CharClass::Whitespace);
    lemma_run_end_bounds(s, i + 1, CharClass::NotNewline);
    lemma_run_end_bounds(s, i + 1, CharClass::Digit);
    lemma_run_end_bounds(s, i + 1, CharClass::NotQuote);
    lemma_run_end_bounds(s, i + 1, CharClass::IdentContinue);
    if is_pattern_whitespace(c) {
        lemma_run_end_local(s, i, e, i + 1, CharClass::Whitespace);
    } else if c == '!' || c == '=' || c == '<' || c == '>' {
    } else if c == '/' {
        if next_char(s, i) == Some('/') {
            lemma_run_end_local(s, i, e, i + 1, CharClass::NotNewline);
        } else if next_char(s, i) == Some('*') {
            lemma_block_end_bounds(s, i + 2, 1);
            lemma_block_end_local(s, i, e, i + 2, 1);
        }
    } else if is_digit(c) {
        let e1 = run_end(s, i + 1, CharClass::Digit);
        if e1 + 1 < s.len() && s[e1] == '.' && is_digit(s[e1 + 1]) {
            lemma_run_end_bounds(s, e1 + 2, CharClass::Digit);
        }
        lemma_run_end_local(s, i, e, i + 1, CharClass::Digit);
        if e1 + 1 < s.len() && s[e1] == '.' && is_digit(s[e1 + 1]) {
            lemma_run_end_local(s, i, e, e1 + 2, CharClass::Digit);
            assert(w[e1 - i] == s[e1] && w[e1 + 1 - i] == s[e1 + 1]);
        }
    } else if c == '"' {
        lemma_run_end_local(s, i, e, i + 1, CharClass::NotQuote);
    } else if punct_kind(c) is Some {
    } else if is_ident_start(c) {
        lemma_run_end_local(s, i, e, i + 1, CharClass::IdentContinue);
        assert(w.subrange(0, e - i) =~= s.subrange(i, e));
    }
}

/// Rescanning the text of any token on its own yields a stream whose first
/// token has that token's kind. Tokens are named by their start position `i`
/// in the characters of the source; the token there covers the characters
/// `[i, lex_at(s, i).1)`, the bytes of its span.
pub proof fn lemma_rescan_same_kind(s: Seq<char>, i: int)
    requires
        0 <= i < s.len(),
    ensures
        spec_scan(s.subrange(i, lex_at(s, i).1))[0].kind == lex_at(s, i).0,
{
    lemma_lex_at_bounds(s, i);
    lemma_lex_at_local(s, i);
    let w = s.subrange(i, lex_at(s, i).1);
    lemma_lex_at_bounds(w, 0);
    assert(spec_scan(w)[0] == tokens_from(w, 0)[0]);
}

} // verus!
