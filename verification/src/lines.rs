//! The lines of a text.
//!
//! A text is cut at its line feeds and nowhere else. A line ends at a line
//! feed or at the end of the text; the line feed is no part of the line, and
//! every other character is, a carriage return before the line feed too. A
//! text that ends with a line feed has no empty line after it.

use crate::encoding::lemma_byte_absent;
use crate::encoding::lemma_encode_injective;
use crate::encoding::lemma_first_ascii_byte;
use crate::encoding::lemma_same_ascii_byte;
use crate::encoding::lemma_split_text;
use vstd::prelude::*;
use vstd::string::StringSliceAdditionalSpecFns;
use vstd::utf8::*;

verus! {

/// The byte of the line feed.
pub const LINE_FEED: u8 = 0x0A;

/// The number of characters of `text` before its first line feed; its length
/// where it holds none.
pub open spec fn line_end(text: Seq<char>) -> int
    decreases text.len(),
{
    if text.len() == 0 || text[0] == '\n' {
        0
    } else {
        1 + line_end(text.drop_first())
    }
}

/// The first line of `text`: what stands before the first line feed, as it
/// stands there; the whole text where it holds no line feed.
pub open spec fn first_line(text: Seq<char>) -> Seq<char> {
    text.subrange(0, line_end(text))
}

/// What follows the first line feed of `text`; nothing where it holds none.
pub open spec fn after_first_line(text: Seq<char>) -> Seq<char> {
    let end = line_end(text);
    if end == text.len() {
        Seq::empty()
    } else {
        text.subrange(end + 1, text.len() as int)
    }
}

/// The lines of `text`, in their order.
pub open spec fn lines_of(text: Seq<char>) -> Seq<Seq<char>>
    decreases text.len(),
{
    if text.len() == 0 {
        Seq::empty()
    } else {
        proof {
            lemma_line_end(text);
        }
        seq![first_line(text)] + lines_of(after_first_line(text))
    }
}

/// `line_end` is a position in the text, no line feed stands before it, and
/// one stands at it unless it is the end of the text.
pub proof fn lemma_line_end(text: Seq<char>)
    ensures
        0 <= line_end(text) <= text.len(),
        forall|i: int| 0 <= i < line_end(text) ==> text[i] != '\n',
        line_end(text) < text.len() ==> text[line_end(text)] == '\n',
    decreases text.len(),
{
    if text.len() > 0 && text[0] != '\n' {
        let others = text.drop_first();
        lemma_line_end(others);
        assert forall|i: int| 0 <= i < line_end(text) implies text[i] != '\n' by {
            if i > 0 {
                assert(text[i] == others[i - 1]);
            }
        }
    }
}

/// `line_end` is the only position with these three properties.
pub proof fn lemma_line_end_is(text: Seq<char>, end: int)
    requires
        0 <= end <= text.len(),
        forall|i: int| 0 <= i < end ==> text[i] != '\n',
        end < text.len() ==> text[end] == '\n',
    ensures
        line_end(text) == end,
{
    lemma_line_end(text);
}

/// No line holds a line feed.
pub proof fn lemma_lines_hold_no_line_feed(text: Seq<char>)
    ensures
        forall|i: int, j: int|
            0 <= i < lines_of(text).len() && 0 <= j < lines_of(text)[i].len() ==> lines_of(
                text,
            )[i][j] != '\n',
    decreases text.len(),
{
    if text.len() > 0 {
        lemma_line_end(text);
        lemma_lines_hold_no_line_feed(after_first_line(text));
        assert forall|i: int, j: int|
            0 <= i < lines_of(text).len() && 0 <= j < lines_of(text)[i].len() implies lines_of(
            text,
        )[i][j] != '\n' by {
            if i > 0 {
                assert(lines_of(text)[i] == lines_of(after_first_line(text))[i - 1]);
            }
        }
    }
}

/// Cuts `text` after its first line: returns that line, and what follows the
/// line feed that ends it.
pub fn next_line<'a>(text: &'a str) -> (cut: (&'a str, &'a str))
    ensures
        cut.0@ == first_line(text@),
        cut.1@ == after_first_line(text@),
{
    let bytes = text.as_bytes();
    let mut at: usize = 0;
    while at < bytes.len() && bytes[at] != LINE_FEED
        invariant
            at <= bytes.len(),
            bytes@ == text.spec_bytes(),
            forall|i: int| 0 <= i < at ==> bytes@[i] != LINE_FEED,
        decreases bytes.len() - at,
    {
        at += 1;
    }
    proof {
        encode_utf8_valid_utf8(text@);
    }
    if at == bytes.len() {
        proof {
            is_char_boundary_start_end_of_seq(text.spec_bytes());
        }
        let (line, rest) = text.split_at(at);
        proof {
            lemma_split_text(text@, line@, rest@, at as int);
            lemma_byte_absent(text@, '\n');
            lemma_line_end_is(text@, text@.len() as int);
        }
        (line, rest)
    } else {
        proof {
            is_char_boundary_iff_is_leading_byte(text.spec_bytes(), at as int);
        }
        let (head, tail) = text.split_at(at);
        proof {
            lemma_split_text(text@, head@, tail@, at as int);
            lemma_first_ascii_byte(tail@);
            lemma_same_ascii_byte(tail@[0], '\n');
            encode_utf8_valid_utf8(tail@);
            reveal_with_fuel(is_char_boundary, 2);
        }
        let (_feed, rest) = tail.split_at(1);
        proof {
            lemma_encode_injective(rest@, tail@.drop_first());
            lemma_byte_absent(head@, '\n');
            lemma_line_end_is(text@, head@.len() as int);
        }
        (head, rest)
    }
}

} // verus!
