//! Facts about the UTF-8 encoding of a text, as far as cutting a `str` at the
//! byte of an ASCII character needs them.
//!
//! A `str` is searched byte by byte and cut at byte offsets, while what a
//! function returns is stated over the characters. The lemmas here carry a
//! fact from one side to the other.

use vstd::prelude::*;
use vstd::utf8::*;

verus! {

/// `c` is one of the 128 ASCII characters: those that UTF-8 encodes as one
/// byte, their own code.
pub open spec fn is_ascii_char(c: char) -> bool {
    c as u32 <= 0x7f
}

/// The encoding of an ASCII character is the one byte that is its code.
pub proof fn lemma_encode_ascii(c: char)
    requires
        is_ascii_char(c),
    ensures
        encode_scalar(c as u32) == seq![c as u8],
{
    let s = c as u32;
    assert((s & 0x7F) as u8 == s as u8) by (bit_vector)
        requires
            s <= 0x7f,
    ;
}

/// Two ASCII characters with the same byte are the same character.
pub proof fn lemma_same_ascii_byte(a: char, b: char)
    requires
        is_ascii_char(a),
        is_ascii_char(b),
        a as u8 == b as u8,
    ensures
        a == b,
{
}

/// The encoding of a character that is not ASCII holds no byte below 0x80,
/// and that of any character holds at least one byte.
pub proof fn lemma_encode_scalar_bytes(c: char)
    ensures
        encode_scalar(c as u32).len() >= 1,
        !is_ascii_char(c) ==> forall|i: int|
            0 <= i < encode_scalar(c as u32).len() ==> #[trigger] encode_scalar(c as u32)[i]
                >= 0x80,
{
    let s = c as u32;
    assert(0xC0u8 | ((s >> 6) & 0x1F) as u8 >= 0x80) by (bit_vector);
    assert(0xE0u8 | ((s >> 12) & 0x0F) as u8 >= 0x80) by (bit_vector);
    assert(0xF0u8 | ((s >> 18) & 0x7) as u8 >= 0x80) by (bit_vector);
    assert(0x80u8 | (s & 0x3F) as u8 >= 0x80) by (bit_vector);
    assert(0x80u8 | ((s >> 6) & 0x3F) as u8 >= 0x80) by (bit_vector);
    assert(0x80u8 | ((s >> 12) & 0x3F) as u8 >= 0x80) by (bit_vector);
}

/// Encoding goes through concatenation.
pub proof fn lemma_encode_concat(a: Seq<char>, b: Seq<char>)
    ensures
        encode_utf8(a + b) == encode_utf8(a) + encode_utf8(b),
    decreases a.len(),
{
    if a.len() > 0 {
        assert((a + b).drop_first() =~= a.drop_first() + b);
        lemma_encode_concat(a.drop_first(), b);
    }
}

/// Two texts with the same encoding are the same text.
pub proof fn lemma_encode_injective(a: Seq<char>, b: Seq<char>)
    requires
        encode_utf8(a) == encode_utf8(b),
    ensures
        a == b,
{
    encode_utf8_decode_utf8(a);
    encode_utf8_decode_utf8(b);
}

/// A text whose encoding is cut in two at any offset, each part being the
/// encoding of a text, is those two texts one after the other.
pub proof fn lemma_split_text(text: Seq<char>, head: Seq<char>, tail: Seq<char>, at: int)
    requires
        0 <= at <= encode_utf8(text).len(),
        encode_utf8(head) == encode_utf8(text).subrange(0, at),
        encode_utf8(tail) == encode_utf8(text).subrange(at, encode_utf8(text).len() as int),
    ensures
        text == head + tail,
{
    let bytes = encode_utf8(text);
    lemma_encode_concat(head, tail);
    assert(bytes.subrange(0, at) + bytes.subrange(at, bytes.len() as int) =~= bytes);
    lemma_encode_injective(text, head + tail);
}

/// Where the encoding of a text begins with a byte below 0x80, that byte is
/// the text's first character, and the other bytes encode the other
/// characters.
pub proof fn lemma_first_ascii_byte(text: Seq<char>)
    requires
        encode_utf8(text).len() > 0,
        encode_utf8(text)[0] <= 0x7f,
    ensures
        text.len() > 0,
        is_ascii_char(text[0]),
        text[0] as u8 == encode_utf8(text)[0],
        encode_utf8(text.drop_first()) == encode_utf8(text).subrange(
            1,
            encode_utf8(text).len() as int,
        ),
{
    lemma_encode_scalar_bytes(text[0]);
    if is_ascii_char(text[0]) {
        lemma_encode_ascii(text[0]);
        assert(encode_utf8(text.drop_first()) =~= encode_utf8(text).subrange(
            1,
            encode_utf8(text).len() as int,
        ));
    }
}

/// An ASCII character whose byte occurs nowhere in the encoding of a text
/// occurs nowhere in the text.
pub proof fn lemma_byte_absent(text: Seq<char>, c: char)
    requires
        is_ascii_char(c),
        forall|i: int| 0 <= i < encode_utf8(text).len() ==> encode_utf8(text)[i] != c as u8,
    ensures
        forall|j: int| 0 <= j < text.len() ==> text[j] != c,
    decreases text.len(),
{
    if text.len() > 0 {
        let first = encode_scalar(text[0] as u32);
        let others = encode_utf8(text.drop_first());
        assert(encode_utf8(text)[0] == first[0]);
        if text[0] == c {
            lemma_encode_ascii(c);
        }
        assert forall|i: int| 0 <= i < others.len() implies others[i] != c as u8 by {
            assert(others[i] == encode_utf8(text)[first.len() + i]);
        }
        lemma_byte_absent(text.drop_first(), c);
        assert forall|j: int| 0 <= j < text.len() implies text[j] != c by {
            if j > 0 {
                assert(text[j] == text.drop_first()[j - 1]);
            }
        }
    }
}

} // verus!
