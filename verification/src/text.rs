//! Facts about the UTF-8 bytes of text.

use vstd::prelude::*;
use vstd::utf8::encode_utf8;
use vstd::utf8::encode_utf8_decode_utf8;
use vstd::utf8::is_ascii_chars;
use vstd::utf8::is_ascii_chars_encode_utf8;

verus! {

/// The bytes of two texts one after the other are the bytes of the one, then those of the other.
pub proof fn lemma_encode_utf8_concat(a: Seq<char>, b: Seq<char>)
    ensures
        encode_utf8(a + b) == encode_utf8(a) + encode_utf8(b),
    decreases a.len(),
{
    if a.len() == 0 {
        assert(a + b =~= b);
        assert(encode_utf8(a) + encode_utf8(b) =~= encode_utf8(b));
    } else {
        lemma_encode_utf8_concat(a.drop_first(), b);
        assert((a + b).drop_first() =~= a.drop_first() + b);
        assert(encode_utf8(a + b) =~= encode_utf8(a) + encode_utf8(b));
    }
}

/// An ASCII character of a text is one of its bytes.
pub proof fn lemma_ascii_char_is_byte(text: Seq<char>, at: int) -> (k: int)
    requires
        0 <= at < text.len(),
        '\0' <= text[at] <= '\u{7f}',
    ensures
        0 <= k < encode_utf8(text).len(),
        encode_utf8(text)[k] == text[at] as u8,
    decreases text.len(),
{
    let rest = text.drop_first();
    let head = seq![text[0]];
    assert(text =~= head + rest);
    lemma_encode_utf8_concat(head, rest);
    if at == 0 {
        assert(is_ascii_chars(head));
        assert(head[0] == text[0]);
        is_ascii_chars_encode_utf8(head);
        0
    } else {
        encode_utf8(head).len() + lemma_ascii_char_is_byte(rest, at - 1)
    }
}

/// A text has at least as many bytes as characters.
pub proof fn lemma_encode_utf8_len(text: Seq<char>)
    ensures
        encode_utf8(text).len() >= text.len(),
    decreases text.len(),
{
    if text.len() > 0 {
        lemma_encode_utf8_len(text.drop_first());
    }
}

/// Texts with the same bytes are the same.
pub proof fn lemma_encode_utf8_injective(a: Seq<char>, b: Seq<char>)
    requires
        encode_utf8(a) == encode_utf8(b),
    ensures
        a == b,
{
    encode_utf8_decode_utf8(a);
    encode_utf8_decode_utf8(b);
}

} // verus!
