//! The standard base64 encoding with padding, and how it is read.

use vstd::prelude::*;

verus! {

/// The character that stands for six bits.
pub open spec fn base64_digit(bits: int) -> char {
    if bits < 26 {
        ('A' as int + bits) as char
    } else if bits < 52 {
        ('a' as int + bits - 26) as char
    } else if bits < 62 {
        ('0' as int + bits - 52) as char
    } else if bits == 62 {
        '+'
    } else {
        '/'
    }
}

/// The byte at `i`, or zero behind the last one.
pub open spec fn byte_at(bytes: Seq<u8>, i: int) -> int {
    if i < bytes.len() {
        bytes[i] as int
    } else {
        0
    }
}

/// The bits that character `i` of an encoding stands for: each three bytes are cut into four times
/// six bits.
pub open spec fn base64_bits(bytes: Seq<u8>, i: int) -> int {
    let start = i / 4 * 3;
    let (a, b, c) = (byte_at(bytes, start), byte_at(bytes, start + 1), byte_at(bytes, start + 2));
    if i % 4 == 0 {
        a / 4
    } else if i % 4 == 1 {
        a % 4 * 16 + b / 16
    } else if i % 4 == 2 {
        b % 16 * 4 + c / 64
    } else {
        c % 64
    }
}

/// The number of characters that encode `len` bytes: four for each three bytes, the last three
/// padded.
pub open spec fn base64_len(len: nat) -> nat {
    (len + 2) / 3 * 4
}

/// The encoding of `bytes`. Characters that hold no bit of a byte are padding.
pub open spec fn base64_text(bytes: Seq<u8>) -> Seq<char> {
    Seq::new(
        base64_len(bytes.len()),
        |i: int|
            if i / 4 * 3 + i % 4 > bytes.len() {
                '='
            } else {
                base64_digit(base64_bits(bytes, i))
            },
    )
}

/// `c` is one of the characters that an encoding holds.
pub open spec fn is_base64_char(c: char) -> bool {
    ||| 'A' <= c <= 'Z'
    ||| 'a' <= c <= 'z'
    ||| '0' <= c <= '9'
    ||| c == '+' || c == '/' || c == '='
}

/// `text` consists of characters that an encoding holds.
pub open spec fn is_base64(text: Seq<char>) -> bool {
    forall|i: int| 0 <= i < text.len() ==> is_base64_char(#[trigger] text[i])
}

/// The six bits that a character stands for.
pub open spec fn base64_value(c: char) -> int {
    if 'A' <= c <= 'Z' {
        c as int - 'A' as int
    } else if 'a' <= c <= 'z' {
        c as int - 'a' as int + 26
    } else if '0' <= c <= '9' {
        c as int - '0' as int + 52
    } else if c == '+' {
        62
    } else {
        63
    }
}

/// The number of characters of padding at the end of `text`.
pub open spec fn base64_padding(text: Seq<char>) -> nat {
    if text.len() < 2 || text.last() != '=' {
        0
    } else if text[text.len() - 2] != '=' {
        1
    } else {
        2
    }
}

/// Byte `i` of what `text` encodes, put together from the bits of two characters.
pub open spec fn base64_byte(text: Seq<char>, i: int) -> u8 {
    let at = i / 3 * 4 + i % 3;
    let (first, second) = (base64_value(text[at]), base64_value(text[at + 1]));
    let byte = if i % 3 == 0 {
        first * 4 + second / 16
    } else if i % 3 == 1 {
        first % 16 * 16 + second / 4
    } else {
        first % 4 * 64 + second
    };
    byte as u8
}

/// The bytes that `text` encodes.
pub open spec fn base64_decoded(text: Seq<char>) -> Seq<u8> {
    Seq::new(
        (text.len() / 4 * 3 - base64_padding(text)) as nat,
        |i: int| base64_byte(text, i),
    )
}

proof fn lemma_digit(bits: int)
    requires
        0 <= bits < 64,
    ensures
        is_base64_char(base64_digit(bits)),
        base64_digit(bits) != '=',
        base64_value(base64_digit(bits)) == bits,
{
}

proof fn lemma_bits(bytes: Seq<u8>, i: int)
    requires
        0 <= i,
    ensures
        0 <= base64_bits(bytes, i) < 64,
{
}

/// An encoding consists of base64 characters only, in whole groups of four.
pub proof fn law_base64_alphabet(bytes: Seq<u8>)
    ensures
        is_base64(base64_text(bytes)),
        base64_text(bytes).len() % 4 == 0,
{
    let text = base64_text(bytes);
    assert forall|i: int| 0 <= i < text.len() implies is_base64_char(#[trigger] text[i]) by {
        lemma_bits(bytes, i);
        lemma_digit(base64_bits(bytes, i));
    }
}

/// A character of an encoding that is no padding stands for its six bits.
proof fn lemma_text_value(bytes: Seq<u8>, i: int)
    requires
        0 <= i < base64_len(bytes.len()),
        i / 4 * 3 + i % 4 <= bytes.len(),
    ensures
        base64_text(bytes)[i] != '=',
        base64_value(base64_text(bytes)[i]) == base64_bits(bytes, i),
{
    lemma_bits(bytes, i);
    lemma_digit(base64_bits(bytes, i));
}

/// The padding tells how many bytes the last group holds.
proof fn lemma_padding(bytes: Seq<u8>)
    ensures
        base64_text(bytes).len() / 4 * 3 - base64_padding(base64_text(bytes)) == bytes.len(),
{
    let text = base64_text(bytes);
    let len = bytes.len() as int;
    if len > 0 {
        let last = text.len() - 1;
        assert(last / 4 * 3 + last % 4 > len <==> len % 3 != 0);
        assert((last - 1) / 4 * 3 + (last - 1) % 4 > len <==> len % 3 == 1);
        if len % 3 == 0 {
            lemma_text_value(bytes, last);
        }
        if len % 3 != 1 {
            lemma_text_value(bytes, last - 1);
        }
    }
}

/// Two neighbouring characters hold the bits of the byte that they share.
proof fn lemma_byte(bytes: Seq<u8>, i: int)
    requires
        0 <= i < bytes.len(),
    ensures
        base64_byte(base64_text(bytes), i) == bytes[i],
{
    let (group, k) = (i / 3, i % 3);
    let at = group * 4 + k;
    assert(at / 4 == group && at % 4 == k);
    assert((at + 1) / 4 == group && (at + 1) % 4 == k + 1);
    assert(i == group * 3 + k);
    lemma_text_value(bytes, at);
    lemma_text_value(bytes, at + 1);
}

/// Decoding an encoding gives back the bytes.
pub proof fn law_base64_decodes(bytes: Seq<u8>)
    ensures
        base64_decoded(base64_text(bytes)) == bytes,
{
    let read = base64_decoded(base64_text(bytes));
    lemma_padding(bytes);
    assert forall|i: int| 0 <= i < bytes.len() implies read[i] == bytes[i] by {
        lemma_byte(bytes, i);
    }
    assert(read =~= bytes);
}

} // verus!
