//! Measures of a text: its token estimate, its lines, its encoded size.

use vstd::prelude::*;
use vstd::string::{StrSliceExecFns, StringExecFns};
use vstd::utf8::encode_utf8;

verus! {

/// The token estimate of a text: one token for every four Unicode scalar
/// values, rounded down.
pub open spec fn token_estimate(text: Seq<char>) -> nat {
    text.len() / 4
}

/// The token estimate is the number of scalar values divided by four and
/// rounded down; that of the empty text is zero.
pub proof fn lemma_token_estimate_rounds_down(text: Seq<char>)
    ensures
        4 * token_estimate(text) <= text.len() < 4 * token_estimate(text) + 4,
        text.len() == 0 ==> token_estimate(text) == 0,
{
}

/// The number of line feeds in a text.
pub open spec fn newline_count(text: Seq<char>) -> nat
    decreases text.len(),
{
    if text.len() == 0 {
        0
    } else {
        newline_count(text.drop_last()) + if text.last() == '\n' {
            1nat
        } else {
            0nat
        }
    }
}

/// The number of lines of a text: every line feed ends a line, and what
/// follows the last line feed is one more line unless it is empty.
pub open spec fn line_count(text: Seq<char>) -> nat {
    if text.len() > 0 && text.last() != '\n' {
        newline_count(text) + 1
    } else {
        newline_count(text)
    }
}

/// The size of a text in bytes, as UTF-8 encodes it.
pub open spec fn byte_len(text: Seq<char>) -> nat {
    encode_utf8(text).len()
}

/// Every scalar value takes at least one byte.
pub proof fn lemma_byte_len_covers_chars(text: Seq<char>)
    ensures
        text.len() <= byte_len(text),
    decreases text.len(),
{
    if text.len() > 0 {
        lemma_byte_len_covers_chars(text.drop_first());
    }
}

/// A text is empty exactly if it takes no bytes.
pub proof fn lemma_empty_text_has_no_bytes(text: Seq<char>)
    ensures
        byte_len(text) == 0 <==> text.len() == 0,
{
    lemma_byte_len_covers_chars(text);
}

/// A text has at most as many line feeds as scalar values.
pub proof fn lemma_newline_count_bound(text: Seq<char>)
    ensures
        newline_count(text) <= text.len(),
    decreases text.len(),
{
    if text.len() > 0 {
        lemma_newline_count_bound(text.drop_last());
    }
}

/// A text has at most as many lines as scalar values.
pub proof fn lemma_line_count_bound(text: Seq<char>)
    ensures
        line_count(text) <= text.len(),
{
    lemma_newline_count_bound(text);
    if text.len() > 0 && text.last() != '\n' {
        lemma_newline_count_bound(text.drop_last());
    }
}

/// The encoding of two texts joined is the two encodings joined.
pub proof fn lemma_byte_len_concat(front: Seq<char>, back: Seq<char>)
    ensures
        encode_utf8(front + back) == encode_utf8(front) + encode_utf8(back),
        byte_len(front + back) == byte_len(front) + byte_len(back),
    decreases front.len(),
{
    if front.len() == 0 {
        assert(front + back == back);
        assert(encode_utf8(front) + encode_utf8(back) == encode_utf8(back));
    } else {
        lemma_byte_len_concat(front.drop_first(), back);
        assert((front + back).drop_first() == front.drop_first() + back);
        let head = vstd::utf8::encode_scalar(front[0] as u32);
        assert(head + (encode_utf8(front.drop_first()) + encode_utf8(back)) == (head
            + encode_utf8(front.drop_first())) + encode_utf8(back));
    }
}

/// The size of a text in bytes.
pub fn size_in_bytes(text: &str) -> (size: usize)
    ensures
        size == byte_len(text@),
{
    text.as_bytes().len()
}

/// Approximate token estimation, assuming four characters per token.
pub fn estimate_tokens(text: &str) -> (tokens: usize)
    ensures
        tokens == token_estimate(text@),
{
    text.unicode_len() / 4
}

/// Counts the lines of a text.
pub fn count_lines(text: &str) -> (lines: usize)
    ensures
        lines == line_count(text@),
{
    broadcast use vstd::string::group_string_axioms;

    let size = size_in_bytes(text);
    proof {
        lemma_byte_len_covers_chars(text@);
    }
    let mut newlines: usize = 0;
    let mut open_line: bool = false;
    for c in it: text.chars()
        invariant
            it.seq() == text@,
            text@.len() <= size,
            newlines == newline_count(text@.take(it.index())),
            open_line == (it.index() > 0 && text@[it.index() - 1] != '\n'),
    {
        proof {
            let before = text@.take(it.index());
            let after = text@.take(it.index() + 1);
            assert(after.drop_last() == before);
            lemma_newline_count_bound(before);
        }
        if c == '\n' {
            newlines = newlines + 1;
            open_line = false;
        } else {
            open_line = true;
        }
    }
    proof {
        assert(text@.take(text@.len() as int) == text@);
        lemma_newline_count_bound(text@);
        if open_line {
            lemma_newline_count_bound(text@.drop_last());
        }
    }
    if open_line {
        newlines + 1
    } else {
        newlines
    }
}

/// The directory part of a file name: what stands before its last `/`.
/// A name without `/` lies in the root directory, whose name is empty.
pub open spec fn directory_of(name: Seq<char>) -> Seq<char>
    decreases name.len(),
{
    if name.len() == 0 {
        Seq::empty()
    } else if name.last() == '/' {
        name.drop_last()
    } else {
        directory_of(name.drop_last())
    }
}

/// The directory part of a name is a prefix of the name.
pub proof fn lemma_directory_is_prefix(name: Seq<char>)
    ensures
        directory_of(name).len() <= name.len(),
        directory_of(name) == name.take(directory_of(name).len() as int),
    decreases name.len(),
{
    if name.len() == 0 {
        assert(name.take(0) == Seq::<char>::empty());
    } else if name.last() == '/' {
        assert(name.drop_last() == name.take(name.len() - 1));
    } else {
        let shorter = name.drop_last();
        lemma_directory_is_prefix(shorter);
        let cut = directory_of(shorter).len() as int;
        assert(shorter.take(cut) == name.take(cut));
    }
}

/// The directory that a file belongs to: the name of its immediate parent.
pub fn parent_directory(name: &str) -> (dir: String)
    ensures
        dir@ == directory_of(name@),
{
    broadcast use vstd::string::group_string_axioms;

    let size = size_in_bytes(name);
    proof {
        lemma_byte_len_covers_chars(name@);
    }
    let mut cut: usize = 0;
    let mut at: usize = 0;
    for c in it: name.chars()
        invariant
            it.seq() == name@,
            name@.len() <= size,
            at == it.index(),
            cut <= at,
            directory_of(name@.take(at as int)) == name@.take(cut as int),
    {
        proof {
            assert(name@.take(at + 1).drop_last() == name@.take(at as int));
            if c != '/' {
                assert(directory_of(name@.take(at + 1)) == directory_of(name@.take(at as int)));
            }
        }
        if c == '/' {
            cut = at;
        }
        at = at + 1;
    }
    proof {
        assert(name@.take(name@.len() as int) == name@);
        assert(name@.take(cut as int) == name@.subrange(0, cut as int));
    }
    String::from_str(name.substring_char(0, cut))
}

} // verus!
