//! What the segmentation of Unicode text answers: where grapheme clusters
//! and words begin and end. The answers are those of the crate
//! `unicode-segmentation`, and are taken on trust.

use vstd::prelude::*;
use vstd::string::StringSliceAdditionalSpecFns;
use vstd::utf8::is_char_boundary;

verus! {

/// The next boundary of an extended grapheme cluster behind the byte offset
/// `offset` of `text`, if `offset` is not the end of the text.
pub uninterp spec fn grapheme_boundary_after(text: Seq<char>, offset: usize) -> Option<usize>;

/// The last boundary of an extended grapheme cluster before the byte offset
/// `offset` of `text`, if `offset` is not the start of the text.
pub uninterp spec fn grapheme_boundary_before(text: Seq<char>, offset: usize) -> Option<usize>;

/// The words of `text` in order, each as the byte offset at which it starts
/// and its length in bytes. A word is a stretch between two word boundaries
/// that holds a letter or a digit.
pub uninterp spec fn unicode_word_spans(text: Seq<char>) -> Seq<(usize, usize)>;

/// Whether each of `words` lies within `bytes`, from one character boundary
/// to another.
pub open spec fn words_lie_within(words: Seq<(usize, usize)>, bytes: Seq<u8>) -> bool {
    forall|i: int|
        0 <= i < words.len() ==> {
            let word = #[trigger] words[i];
            &&& word.0 + word.1 <= bytes.len()
            &&& is_char_boundary(bytes, word.0 as int)
            &&& is_char_boundary(bytes, word.0 + word.1)
        }
}

/// Calls `GraphemeCursor::next_boundary` of `unicode-segmentation` on a cursor
/// for extended grapheme clusters that stands at `offset`, with the whole
/// text as the chunk. The result is given a name. Of the result it is claimed
/// that it lies behind `offset`, which the cursor leaves by whole characters,
/// and not behind the end of the text, and that there is none at the end of
/// the text only.
#[verifier::external_body]
pub(crate) fn next_grapheme_boundary(text: &str, offset: usize) -> (next: Option<usize>)
    requires
        offset <= text.spec_bytes().len(),
        is_char_boundary(text.spec_bytes(), offset as int),
    ensures
        next == grapheme_boundary_after(text@, offset),
        next matches Some(n) ==> offset < n <= text.spec_bytes().len() && is_char_boundary(
            text.spec_bytes(),
            n as int,
        ),
        next is None ==> offset == text.spec_bytes().len(),
{
    unicode_segmentation::GraphemeCursor::new(offset, text.len(), true).next_boundary(
        text,
        0,
    ).ok().flatten()
}

/// Calls `GraphemeCursor::prev_boundary` of `unicode-segmentation` on a cursor
/// for extended grapheme clusters that stands at `offset`, with the whole
/// text as the chunk. The result is given a name. Of the result it is claimed
/// that it lies before `offset`, which the cursor leaves by whole characters,
/// and that there is none at the start of the text only.
#[verifier::external_body]
pub(crate) fn prev_grapheme_boundary(text: &str, offset: usize) -> (prev: Option<usize>)
    requires
        offset <= text.spec_bytes().len(),
        is_char_boundary(text.spec_bytes(), offset as int),
    ensures
        prev == grapheme_boundary_before(text@, offset),
        prev matches Some(n) ==> n < offset && is_char_boundary(text.spec_bytes(), n as int),
        prev is None ==> offset == 0,
{
    unicode_segmentation::GraphemeCursor::new(offset, text.len(), true).prev_boundary(
        text,
        0,
    ).ok().flatten()
}

/// Collects what `UnicodeSegmentation::unicode_word_indices` of
/// `unicode-segmentation` yields for `text`, each word as its offset and its
/// length. The result is given a name. Of the result it is claimed that each
/// word is a slice of the text: it lies within the text, from one character
/// boundary to another.
#[verifier::external_body]
pub(crate) fn unicode_word_indices(text: &str) -> (words: Vec<(usize, usize)>)
    ensures
        words@ == unicode_word_spans(text@),
        words_lie_within(words@, text.spec_bytes()),
{
    unicode_segmentation::UnicodeSegmentation::unicode_word_indices(text).map(
        |(offset, word)| (offset, word.len()),
    ).collect()
}

} // verus!
