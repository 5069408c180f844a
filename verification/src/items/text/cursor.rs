//! Where a move of the cursor ends, as far as the text alone decides it.

use super::segmentation::words_lie_within;
use vstd::prelude::*;
use vstd::string::StringSliceAdditionalSpecFns;
use vstd::utf8::{encode_utf8_valid_utf8, is_char_boundary, valid_utf8};

verus! {

/// The byte that ends a paragraph.
pub const NEWLINE: u8 = 10;

/// The end of the first of `words` that ends behind `cursor`, or `len`, the
/// end of the text, where no word does.
pub open spec fn forward_by_word_spec(words: Seq<(usize, usize)>, cursor: usize, len: usize) -> int
    decreases words.len(),
{
    if words.len() == 0 {
        len as int
    } else if words[0].0 + words[0].1 > cursor {
        words[0].0 + words[0].1
    } else {
        forward_by_word_spec(words.drop_first(), cursor, len)
    }
}

/// The start of the last of `words` before the first that does not start
/// before `cursor`, or `before` where the very first does not.
pub open spec fn backward_by_word_spec(
    words: Seq<(usize, usize)>,
    cursor: usize,
    before: usize,
) -> usize
    decreases words.len(),
{
    if words.len() == 0 || words[0].0 >= cursor {
        before
    } else {
        backward_by_word_spec(words.drop_first(), cursor, words[0].0)
    }
}

/// The offset behind the last newline that lies at least two bytes before
/// `cursor`, or 0: the start of the paragraph of the byte before the cursor.
pub open spec fn start_of_paragraph_spec(bytes: Seq<u8>, cursor: int) -> int
    decreases cursor,
{
    if cursor < 2 {
        0
    } else if bytes[cursor - 2] == NEWLINE {
        cursor - 1
    } else {
        start_of_paragraph_spec(bytes, cursor - 1)
    }
}

/// The offset of the first newline at or behind `from`, or the end of the
/// text.
pub open spec fn next_newline_spec(bytes: Seq<u8>, from: int) -> int
    decreases bytes.len() - from,
{
    if from < 0 || from >= bytes.len() {
        bytes.len() as int
    } else if bytes[from] == NEWLINE {
        from
    } else {
        next_newline_spec(bytes, from + 1)
    }
}

/// The last character boundary before `cursor`, or 0.
pub open spec fn previous_character_spec(bytes: Seq<u8>, cursor: int) -> int
    decreases cursor,
{
    if cursor <= 1 {
        0
    } else if is_char_boundary(bytes, cursor - 1) {
        cursor - 1
    } else {
        previous_character_spec(bytes, cursor - 1)
    }
}

/// Where a move forward by a word ends: at the end of the first word that
/// ends behind the cursor, or at the end of the text.
pub fn forward_by_word(words: &Vec<(usize, usize)>, cursor: usize, len: usize) -> (end: usize)
    requires
        forall|i: int| 0 <= i < words.len() ==> (#[trigger] words[i]).0 + words[i].1 <= usize::MAX,
    ensures
        end == forward_by_word_spec(words@, cursor, len),
{
    let mut i: usize = 0;
    assert(words@.subrange(0, words.len() as int) =~= words@);
    while i < words.len()
        invariant
            i <= words.len(),
            forall|k: int|
                0 <= k < words.len() ==> (#[trigger] words[k]).0 + words[k].1 <= usize::MAX,
            forward_by_word_spec(words@, cursor, len) == forward_by_word_spec(
                words@.subrange(i as int, words.len() as int),
                cursor,
                len,
            ),
        decreases words.len() - i,
    {
        let ghost rest = words@.subrange(i as int, words.len() as int);
        assert(rest[0] == words[i as int]);
        assert(rest.drop_first() =~= words@.subrange(i + 1, words.len() as int));
        let word = words[i];
        if word.0 + word.1 > cursor {
            return word.0 + word.1;
        }
        i += 1;
    }
    len
}

/// Where a move backward by a word ends: at the start of the last word that
/// starts before the cursor, or at the start of the text.
pub fn backward_by_word(words: &Vec<(usize, usize)>, cursor: usize) -> (start: usize)
    ensures
        start == backward_by_word_spec(words@, cursor, 0),
{
    let mut word_offset: usize = 0;
    let mut i: usize = 0;
    assert(words@.subrange(0, words.len() as int) =~= words@);
    while i < words.len()
        invariant
            i <= words.len(),
            backward_by_word_spec(words@, cursor, 0) == backward_by_word_spec(
                words@.subrange(i as int, words.len() as int),
                cursor,
                word_offset,
            ),
        decreases words.len() - i,
    {
        let ghost rest = words@.subrange(i as int, words.len() as int);
        assert(rest[0] == words[i as int]);
        assert(rest.drop_first() =~= words@.subrange(i + 1, words.len() as int));
        let current_word_offset = words[i].0;
        if current_word_offset < cursor {
            word_offset = current_word_offset;
        } else {
            return word_offset;
        }
        i += 1;
    }
    word_offset
}

/// Where a move to the start of the paragraph ends. A cursor that stands
/// right behind a newline goes to the start of the paragraph before.
pub fn start_of_paragraph(bytes: &[u8], cursor: usize) -> (start: usize)
    requires
        cursor <= bytes@.len(),
    ensures
        start == start_of_paragraph_spec(bytes@, cursor as int),
        start <= cursor,
{
    let mut i: usize = cursor;
    while i >= 2
        invariant
            i <= cursor <= bytes@.len(),
            start_of_paragraph_spec(bytes@, cursor as int) == start_of_paragraph_spec(
                bytes@,
                i as int,
            ),
        decreases i,
    {
        if bytes[i - 2] == NEWLINE {
            return i - 1;
        }
        i -= 1;
    }
    0
}

/// Where a move to the end of the paragraph ends: at the first newline
/// behind the byte at the cursor, or at the end of the text.
pub fn end_of_paragraph(bytes: &[u8], cursor: usize) -> (end: usize)
    requires
        cursor <= bytes@.len(),
    ensures
        end == next_newline_spec(bytes@, cursor + 1),
        end <= bytes@.len(),
{
    if cursor >= bytes.len() {
        return bytes.len();
    }
    let mut i: usize = cursor + 1;
    while i < bytes.len()
        invariant
            cursor < i <= bytes@.len(),
            next_newline_spec(bytes@, cursor + 1) == next_newline_spec(bytes@, i as int),
        decreases bytes@.len() - i,
    {
        if bytes[i] == NEWLINE {
            return i;
        }
        i += 1;
    }
    bytes.len()
}

/// Where the step back over one character ends, whatever grapheme cluster
/// the character belongs to.
pub fn previous_character(text: &str, cursor: usize) -> (previous: usize)
    requires
        cursor <= text.spec_bytes().len(),
    ensures
        previous == previous_character_spec(text.spec_bytes(), cursor as int),
        previous <= cursor,
        is_char_boundary(text.spec_bytes(), previous as int),
{
    broadcast use encode_utf8_valid_utf8;

    let mut i: usize = cursor;
    while i > 1
        invariant
            i <= cursor <= text.spec_bytes().len(),
            valid_utf8(text.spec_bytes()),
            previous_character_spec(text.spec_bytes(), cursor as int) == previous_character_spec(
                text.spec_bytes(),
                i as int,
            ),
        decreases i,
    {
        i -= 1;
        if text.is_char_boundary(i) {
            return i;
        }
    }
    0
}

/// A move forward by a word ends within the text, at a character boundary.
pub proof fn lemma_forward_by_word_is_boundary(
    words: Seq<(usize, usize)>,
    bytes: Seq<u8>,
    cursor: usize,
    len: usize,
)
    requires
        valid_utf8(bytes),
        words_lie_within(words, bytes),
        len == bytes.len(),
    ensures
        0 <= forward_by_word_spec(words, cursor, len) <= bytes.len(),
        is_char_boundary(bytes, forward_by_word_spec(words, cursor, len)),
    decreases words.len(),
{
    vstd::utf8::is_char_boundary_start_end_of_seq(bytes);
    if words.len() > 0 {
        assert(words[0].0 + words[0].1 <= bytes.len());
        if !(words[0].0 + words[0].1 > cursor) {
            assert forall|i: int| 0 <= i < words.drop_first().len() implies {
                let word = #[trigger] words.drop_first()[i];
                &&& word.0 + word.1 <= bytes.len()
                &&& is_char_boundary(bytes, word.0 as int)
                &&& is_char_boundary(bytes, word.0 + word.1)
            } by {
                assert(words.drop_first()[i] == words[i + 1]);
            }
            lemma_forward_by_word_is_boundary(words.drop_first(), bytes, cursor, len);
        }
    }
}

/// A move backward by a word ends within the text, at a character boundary.
pub proof fn lemma_backward_by_word_is_boundary(
    words: Seq<(usize, usize)>,
    bytes: Seq<u8>,
    cursor: usize,
    before: usize,
)
    requires
        valid_utf8(bytes),
        words_lie_within(words, bytes),
        before <= bytes.len(),
        is_char_boundary(bytes, before as int),
    ensures
        backward_by_word_spec(words, cursor, before) <= bytes.len(),
        is_char_boundary(bytes, backward_by_word_spec(words, cursor, before) as int),
    decreases words.len(),
{
    if words.len() > 0 && words[0].0 < cursor {
        assert(words[0].0 + words[0].1 <= bytes.len());
        assert forall|i: int| 0 <= i < words.drop_first().len() implies {
            let word = #[trigger] words.drop_first()[i];
            &&& word.0 + word.1 <= bytes.len()
            &&& is_char_boundary(bytes, word.0 as int)
            &&& is_char_boundary(bytes, word.0 + word.1)
        } by {
            assert(words.drop_first()[i] == words[i + 1]);
        }
        lemma_backward_by_word_is_boundary(words.drop_first(), bytes, cursor, words[0].0);
    }
}

} // verus!
