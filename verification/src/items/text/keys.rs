//! What a key event asks of a text input.

use crate::input::TextCursorDirection;
use vstd::prelude::*;
use vstd::string::StrSliceExecFns;

verus! {

/// Whether `c` is a control character: one of the codes below the space, the
/// delete code, or one of the 32 codes behind it.
pub open spec fn is_control_spec(c: char) -> bool {
    c <= '\u{1f}' || ('\u{7f}' <= c && c <= '\u{9f}')
}

/// Whether `c` is a control character.
#[verifier::when_used_as_spec(is_control_spec)]
pub fn is_control(c: char) -> (control: bool)
    ensures
        control == is_control_spec(c),
{
    c <= '\u{1f}' || ('\u{7f}' <= c && c <= '\u{9f}')
}

/// Whether `c` is not for a text: it stands for a key without a character of
/// its own, or is a control character other than the newline.
pub open spec fn is_special_spec(c: char) -> bool {
    ('\u{f700}' <= c && c <= '\u{f7ff}') || (is_control_spec(c) && c != '\n')
}

/// Whether `c` is not for a text.
#[verifier::when_used_as_spec(is_special_spec)]
pub fn is_special(c: char) -> (special: bool)
    ensures
        special == is_special_spec(c),
{
    ('\u{f700}' <= c && c <= '\u{f7ff}') || (is_control(c) && c != '\n')
}

/// Whether `text` can be typed into a text: it is not empty, and holds no
/// character that is not for a text.
pub open spec fn is_insertable_spec(text: Seq<char>) -> bool {
    text.len() > 0 && forall|i: int| 0 <= i < text.len() ==> !is_special_spec(#[trigger] text[i])
}

/// Whether `text` can be typed into a text.
pub fn is_insertable(text: &str) -> (insertable: bool)
    ensures
        insertable == is_insertable_spec(text@),
{
    let len = text.unicode_len();
    if len == 0 {
        return false;
    }
    let mut i: usize = 0;
    while i < len
        invariant
            i <= len == text@.len(),
            forall|k: int| 0 <= k < i ==> !is_special_spec(#[trigger] text@[k]),
        decreases len - i,
    {
        if is_special(text.get_char(i)) {
            return false;
        }
        i += 1;
    }
    true
}

/// What a key event asks of a text input.
#[derive(Debug, Clone, Copy, PartialEq, Eq, Structural)]
pub enum KeyAction {
    /// Nothing: the event is not for the text input.
    Ignore,
    /// Move the cursor.
    Move(TextCursorDirection),
    /// Remove the selection, or what the cursor passes over on this step.
    Delete(TextCursorDirection),
    /// Tell who listens that the text is accepted as it is.
    Accept,
    SelectAll,
    Copy,
    Paste,
    Cut,
    /// Put the text of the event in the place of the selection.
    Insert,
}

} // verus!
