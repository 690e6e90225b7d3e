//! Text primitives: UTF-8 widths, byte offsets of character positions, and
//! character runs.
use vstd::prelude::*;
use vstd::std_specs::iter::IteratorSpec;
use vstd::string::StringSliceAdditionalSpecFns;
use vstd::utf8::*;

verus! {

/// Number of bytes in the UTF-8 encoding of `c`.
pub open spec fn char_width(c: char) -> nat {
    if (c as u32) < 0x80 {
        1
    } else if (c as u32) < 0x800 {
        2
    } else if (c as u32) < 0x10000 {
        3
    } else {
        4
    }
}

/// Byte offset, in the UTF-8 encoding of `s`, of the character at position `i`.
pub open spec fn byte_offset(s: Seq<char>, i: int) -> nat
    decreases i,
{
    if i <= 0 || s.len() == 0 {
        0
    } else if i > s.len() {
        byte_offset(s, s.len() as int)
    } else {
        byte_offset(s, i - 1) + char_width(s[i - 1])
    }
}

/// Byte length of the UTF-8 encoding of `s`.
pub open spec fn byte_len(s: Seq<char>) -> nat {
    byte_offset(s, s.len() as int)
}

proof fn lemma_encode_scalar_len(c: char)
    ensures
        encode_scalar(c as u32).len() == char_width(c),
{
    broadcast use char_is_scalar;

}

proof fn lemma_byte_offset_prefix(s: Seq<char>, t: Seq<char>, i: int)
    requires
        0 <= i <= s.len(),
    ensures
        byte_offset(s + t, i) == byte_offset(s, i),
    decreases i,
{
    if i > 0 {
        lemma_byte_offset_prefix(s, t, i - 1);
        assert((s + t)[i - 1] == s[i - 1]);
    }
}

proof fn lemma_byte_len_first(s: Seq<char>)
    requires
        s.len() > 0,
    ensures
        byte_len(s) == char_width(s[0]) + byte_len(s.drop_first()),
    decreases s.len(),
{
    if s.len() == 1 {
        assert(byte_offset(s, 0) == 0);
        assert(byte_len(s.drop_first()) == 0);
    } else {
        let p = s.drop_last();
        lemma_byte_len_first(p);
        lemma_byte_offset_prefix(p, seq![s.last()], p.len() as int);
        assert(p + seq![s.last()] =~= s);
        let q = s.drop_first();
        assert(q.drop_last() =~= p.drop_first());
        lemma_byte_offset_prefix(q.drop_last(), seq![q.last()], q.drop_last().len() as int);
        assert(q.drop_last() + seq![q.last()] =~= q);
        assert(byte_len(q) == byte_len(q.drop_last()) + char_width(q.last()));
    }
}

/// The byte length of a character sequence is the length of its UTF-8 encoding.
pub proof fn lemma_byte_len_is_encoding_len(s: Seq<char>)
    ensures
        byte_len(s) == encode_utf8(s).len(),
    decreases s.len(),
{
    if s.len() > 0 {
        lemma_byte_len_first(s);
        lemma_encode_scalar_len(s[0]);
        lemma_byte_len_is_encoding_len(s.drop_first());
    }
}

/// Byte offsets grow with character positions, by at least one byte per character.
pub proof fn lemma_byte_offset_mono(s: Seq<char>, i: int, j: int)
    requires
        0 <= i <= j <= s.len(),
    ensures
        byte_offset(s, i) + (j - i) <= byte_offset(s, j),
    decreases j - i,
{
    if i < j {
        lemma_byte_offset_mono(s, i, j - 1);
    }
}

/// UTF-8 width of a character.
pub fn utf8_width(c: char) -> (r: usize)
    ensures
        r == char_width(c),
{
    let v = c as u32;
    if v < 0x80 {
        1
    } else if v < 0x800 {
        2
    } else if v < 0x10000 {
        3
    } else {
        4
    }
}

/// The characters of `s`, in order.
pub fn chars_of(s: &str) -> (r: Vec<char>)
    ensures
        r@ == s@,
{
    broadcast use vstd::string::axiom_spec_iter, vstd::string::next_postcondition;

    let mut it = s.chars();
    let mut r: Vec<char> = Vec::new();
    loop
        invariant
            it.obeys_prophetic_iter_laws(),
            r@ + it.remaining() == s@,
            it.decrease() is Some,
        ensures
            r@ == s@,
        decreases it.decrease()->0,
    {
        match it.next() {
            Some(c) => {
                r.push(c);
            },
            None => {
                assert(r@ + it.remaining() =~= r@);
                break;
            },
        }
    }
    r
}


/// The characters that the byte range `[start, end)` of `src` denotes, or
/// `None` where the range leaves the source or splits a character.
pub open spec fn text_of(src: Seq<char>, start: int, end: int) -> Option<Seq<char>> {
    let b = encode_utf8(src);
    if 0 <= start <= end <= b.len() && is_char_boundary(b, end) && is_char_boundary(
        b.subrange(0, end),
        start,
    ) {
        Some(decode_utf8(b.subrange(start, end)))
    } else {
        None
    }
}

/// The text of `src` in the byte range `[start, end)`.
pub fn text_in(src: &str, start: usize, end: usize) -> (r: Option<String>)
    ensures
        r is Some <==> text_of(src@, start as int, end as int) is Some,
        r is Some ==> r->0@ == text_of(src@, start as int, end as int)->0,
{
    broadcast use encode_utf8_decode_utf8;

    let n = src.as_bytes().len();
    if start <= end && end <= n && src.is_char_boundary(end) {
        let (head, _) = src.split_at(end);
        assert(head.spec_bytes() =~= src.spec_bytes().subrange(0, end as int));
        if head.is_char_boundary(start) {
            let (_, mid) = head.split_at(start);
            assert(mid.spec_bytes() =~= src.spec_bytes().subrange(start as int, end as int));
            return Some(mid.to_owned());
        }
    }
    None
}

/// Whether `chars[start..end]` spells `word`.
pub fn spells(chars: &Vec<char>, start: usize, end: usize, word: &[char]) -> (r: bool)
    requires
        start <= end <= chars@.len(),
    ensures
        r == (chars@.subrange(start as int, end as int) == word@),
{
    if end - start != word.len() {
        return false;
    }
    let mut k: usize = 0;
    while k < word.len()
        invariant
            start <= end <= chars@.len(),
            end - start == word@.len(),
            k <= word@.len(),
            forall|m: int| 0 <= m < k ==> chars@[start + m] == word@[m],
        decreases word@.len() - k,
    {
        if chars[start + k] != word[k] {
            assert(chars@.subrange(start as int, end as int)[k as int] != word@[k as int]);
            return false;
        }
        k = k + 1;
    }
    assert(chars@.subrange(start as int, end as int) =~= word@);
    true
}

} // verus!
