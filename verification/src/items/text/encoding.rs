//! Texts as bytes: what holds of the encoding of texts that are put together
//! and taken apart.

use vstd::prelude::*;
use vstd::utf8::{encode_utf8, is_char_boundary, valid_utf8};

verus! {

/// The encoding of two texts put together is the two encodings put together.
pub proof fn lemma_encode_concat(a: Seq<char>, b: Seq<char>)
    ensures
        encode_utf8(a + b) == encode_utf8(a) + encode_utf8(b),
    decreases a.len(),
{
    if a.len() == 0 {
        assert(a + b =~= b);
        assert(encode_utf8(a) + encode_utf8(b) =~= encode_utf8(b));
    } else {
        assert((a + b).drop_first() =~= a.drop_first() + b);
        lemma_encode_concat(a.drop_first(), b);
        assert(encode_utf8(a + b) =~= encode_utf8(a) + encode_utf8(b));
    }
}

/// Calls `str::replace` of `std` to put a space for each newline of `text`.
/// `replace` puts the second string for each match of the pattern, here a
/// single character, and leaves the rest as it is.
#[verifier::external_body]
pub(crate) fn replace_newlines(text: &str) -> (replaced: String)
    ensures
        replaced@ == spaces_for_newlines(text@),
{
    text.replace('\n', " ")
}

/// `text` with a space for each newline.
pub open spec fn spaces_for_newlines(text: Seq<char>) -> Seq<char> {
    Seq::new(
        text.len(),
        |i: int|
            if text[i] == '\n' {
                ' '
            } else {
                text[i]
            },
    )
}

/// To put spaces for newlines leaves the length in bytes as it is: both take
/// one byte.
pub proof fn lemma_spaces_for_newlines_len(text: Seq<char>)
    ensures
        encode_utf8(spaces_for_newlines(text)).len() == encode_utf8(text).len(),
    decreases text.len(),
{
    let replaced = spaces_for_newlines(text);
    if text.len() > 0 {
        assert(replaced.drop_first() =~= spaces_for_newlines(text.drop_first()));
        lemma_spaces_for_newlines_len(text.drop_first());
        assert(vstd::utf8::encode_scalar(' ' as u32).len() == 1);
        assert(vstd::utf8::encode_scalar('\n' as u32).len() == 1);
    }
}

/// A character boundary of a text is one of each prefix that reaches it.
pub proof fn lemma_boundary_in_prefix(bytes: Seq<u8>, at: int, end: int)
    requires
        valid_utf8(bytes),
        0 <= at <= end <= bytes.len(),
        is_char_boundary(bytes, at),
        is_char_boundary(bytes, end),
    ensures
        valid_utf8(bytes.subrange(0, end)),
        is_char_boundary(bytes.subrange(0, end), at),
{
    let prefix = bytes.subrange(0, end);
    vstd::utf8::valid_utf8_split(bytes, end);
    if at == end {
        vstd::utf8::is_char_boundary_start_end_of_seq(prefix);
    } else {
        vstd::utf8::is_char_boundary_iff_not_is_continuation_byte(bytes, at);
        vstd::utf8::is_char_boundary_iff_not_is_continuation_byte(prefix, at);
    }
}

} // verus!
