//! Editing a line or a block of text: where the cursor goes, what a selection
//! is, and what keys and the mouse do to the text.
//!
//! Positions are byte offsets into the text. Where lines begin and end is for
//! the renderer to say, which lays the text out: a move by lines takes its
//! answer as an argument.

pub mod cursor;
pub mod encoding;
pub mod keys;
pub mod layout;
pub mod segmentation;

pub use cursor::{
    backward_by_word, end_of_paragraph, forward_by_word, previous_character, start_of_paragraph,
};
pub use keys::{is_control, is_insertable, is_special, KeyAction};
pub use layout::{
    font_request, keeps_preferred_x_pos, line_probe, text_input_layout_info, text_layout_info,
    text_to_measure, width_to_measure_within, FontRequest, LayoutInfo, Orientation, TextOverflow,
    TextSize, TextWrap, WindowFont,
};

use crate::graphics::{Coord, Point};
use crate::input::key_codes;
use crate::input::{
    FocusEvent, FocusEventResult, InputEventResult, KeyEvent, KeyEventResult, KeyEventType,
    KeyboardModifiers, MouseEvent, PointerEventButton, StandardShortcut, TargetOs,
    TextCursorDirection, TextShortcut,
};
use cursor::{
    backward_by_word_spec, forward_by_word_spec, lemma_backward_by_word_is_boundary,
    lemma_forward_by_word_is_boundary, next_newline_spec, previous_character_spec,
    start_of_paragraph_spec,
};
use encoding::{
    lemma_boundary_in_prefix, lemma_encode_concat, lemma_spaces_for_newlines_len,
    replace_newlines, spaces_for_newlines,
};
use keys::is_insertable_spec;
use segmentation::{
    grapheme_boundary_after, grapheme_boundary_before, next_grapheme_boundary,
    prev_grapheme_boundary, unicode_word_indices, unicode_word_spans,
};
use vstd::prelude::*;
use vstd::string::StrSliceExecFns;
use vstd::string::StringExecFns;
use vstd::string::StringSliceAdditionalSpecFns;
use vstd::utf8::{encode_utf8, encode_utf8_valid_utf8, is_char_boundary};

verus! {

/// Whether a move of the cursor takes the anchor of the selection along.
#[derive(Debug, Clone, Copy, PartialEq, Eq, Structural)]
pub enum AnchorMode {
    /// The anchor stays: the selection grows or shrinks.
    KeepAnchor,
    /// The anchor goes with the cursor: nothing is selected afterwards.
    MoveAnchor,
}

impl From<KeyboardModifiers> for AnchorMode {
    /// With shift held, a move of the cursor selects.
    fn from(modifiers: KeyboardModifiers) -> (mode: Self) {
        if modifiers.shift {
            Self::KeepAnchor
        } else {
            Self::MoveAnchor
        }
    }
}

impl vstd::std_specs::convert::FromSpecImpl<KeyboardModifiers> for AnchorMode {
    open spec fn obeys_from_spec() -> bool {
        true
    }

    open spec fn from_spec(modifiers: KeyboardModifiers) -> Self {
        if modifiers.shift {
            Self::KeepAnchor
        } else {
            Self::MoveAnchor
        }
    }
}

/// What a mouse event has done to a text input, and what is left for the
/// caller to do.
pub struct MouseEventOutcome {
    /// Whether the event was for the text input.
    pub result: InputEventResult,
    /// The caller is to give the keyboard focus to the text input.
    pub request_focus: bool,
}

/// What a key event has done to a text input, and what is left for the
/// caller to do.
pub struct KeyEventOutcome {
    /// Whether the event was for the text input.
    pub result: KeyEventResult,
    /// The caller is to tell who listens that the text is accepted.
    pub accepted: bool,
    /// The caller is to tell who listens that the text was edited.
    pub edited: bool,
    /// The caller is to put this text on the clipboard.
    pub copied: Option<String>,
}

/// What a text input holds besides its looks.
pub struct TextInput {
    pub text: String,
    /// Where the cursor stands, as a byte offset.
    pub cursor_position: i32,
    /// Where the selection started, as a byte offset. Nothing is selected
    /// where it is the cursor position.
    pub anchor_position: i32,
    /// A newline that is inserted becomes a space.
    pub single_line: bool,
    /// Keys do not change the text.
    pub read_only: bool,
    /// Unless this is set, neither keys nor the mouse are looked at.
    pub enabled: bool,
    /// The left button is held since it was pressed on the text.
    pub pressed: bool,
    /// The text input has the keyboard focus.
    pub has_focus: bool,
    /// The cursor is drawn. While the text input has the focus, it is for
    /// the caller to let the cursor blink.
    pub cursor_visible: bool,
    /// The x position where the cursor wants to be. It is not updated when
    /// the cursor moves up and down, even where the line is shorter.
    pub preferred_x_pos: Coord,
}

impl TextInput {
    /// The text as bytes.
    pub open spec fn bytes(self) -> Seq<u8> {
        encode_utf8(self.text@)
    }

    /// `position` brought into the text: a position before the text counts
    /// as its start, one behind it as its end.
    pub open spec fn clamp(self, position: i32) -> int {
        if position < 0 {
            0
        } else if position > self.bytes().len() {
            self.bytes().len() as int
        } else {
            position as int
        }
    }

    /// The selection: its start and its end, the anchor and the cursor in the
    /// order in which they stand in the text.
    pub open spec fn selection(self) -> (int, int) {
        let cursor = self.clamp(self.cursor_position);
        let anchor = self.clamp(self.anchor_position);
        if anchor > cursor {
            (cursor, anchor)
        } else {
            (anchor, cursor)
        }
    }

    /// Whether both ends of the selection are character boundaries, so that
    /// the text can be cut there.
    pub open spec fn selection_on_char_boundaries(self) -> bool {
        &&& is_char_boundary(self.bytes(), self.selection().0)
        &&& is_char_boundary(self.bytes(), self.selection().1)
    }

    /// Where a move of the cursor starts: at the cursor position, or at the
    /// end of the text where that position lies outside the text.
    pub open spec fn last_cursor_pos(self) -> int {
        if self.cursor_position < 0 || self.cursor_position > self.bytes().len() {
            self.bytes().len() as int
        } else {
            self.cursor_position as int
        }
    }

    /// Where a move of the cursor in `direction` ends. A move by lines ends
    /// where the renderer says, at `renderer_offset`.
    pub open spec fn target(self, direction: TextCursorDirection, renderer_offset: usize) -> int {
        let from = self.last_cursor_pos();
        let len = self.bytes().len();
        match direction {
            TextCursorDirection::Forward => match grapheme_boundary_after(
                self.text@,
                from as usize,
            ) {
                Some(n) => n as int,
                None => len as int,
            },
            TextCursorDirection::Backward => match grapheme_boundary_before(
                self.text@,
                from as usize,
            ) {
                Some(n) => n as int,
                None => 0,
            },
            TextCursorDirection::NextLine
            | TextCursorDirection::PreviousLine
            | TextCursorDirection::StartOfLine
            | TextCursorDirection::EndOfLine => renderer_offset as int,
            TextCursorDirection::PreviousCharacter => previous_character_spec(self.bytes(), from),
            TextCursorDirection::ForwardByWord => forward_by_word_spec(
                unicode_word_spans(self.text@),
                from as usize,
                len as usize,
            ),
            TextCursorDirection::BackwardByWord => backward_by_word_spec(
                unicode_word_spans(self.text@),
                from as usize,
                0,
            ) as int,
            TextCursorDirection::StartOfParagraph => start_of_paragraph_spec(self.bytes(), from),
            TextCursorDirection::EndOfParagraph => next_newline_spec(self.bytes(), from + 1),
            TextCursorDirection::StartOfText => 0,
            TextCursorDirection::EndOfText => len as int,
        }
    }

    /// A text input that holds `text`, with the cursor at its start.
    pub fn new(text: String) -> (input: Self)
        ensures
            input.text == text,
            input.cursor_position == 0,
            input.anchor_position == 0,
            !input.single_line,
            !input.read_only,
            input.enabled,
            !input.pressed,
            !input.has_focus,
            !input.cursor_visible,
            input.preferred_x_pos == 0,
    {
        TextInput {
            text,
            cursor_position: 0,
            anchor_position: 0,
            single_line: false,
            read_only: false,
            enabled: true,
            pressed: false,
            has_focus: false,
            cursor_visible: false,
            preferred_x_pos: 0,
        }
    }

    /// Whether the two text inputs differ in text and positions at most.
    pub open spec fn same_settings(self, other: Self) -> bool {
        &&& self.single_line == other.single_line
        &&& self.read_only == other.read_only
        &&& self.enabled == other.enabled
        &&& self.pressed == other.pressed
        &&& self.has_focus == other.has_focus
        &&& self.cursor_visible == other.cursor_visible
        &&& self.preferred_x_pos == other.preferred_x_pos
    }

    /// The start and the end of the selection. Use this and not the positions
    /// themselves, which may lie outside the text.
    pub fn selection_anchor_and_cursor(&self) -> (selection: (usize, usize))
        requires
            self.bytes().len() <= i32::MAX,
        ensures
            selection.0 == self.selection().0,
            selection.1 == self.selection().1,
            selection.0 <= selection.1 <= self.bytes().len(),
    {
        let max_pos = self.text.as_str().as_bytes().len() as i32;
        let cursor_pos = if self.cursor_position < 0 {
            0
        } else if self.cursor_position > max_pos {
            max_pos
        } else {
            self.cursor_position
        };
        let anchor_pos = if self.anchor_position < 0 {
            0
        } else if self.anchor_position > max_pos {
            max_pos
        } else {
            self.anchor_position
        };
        if anchor_pos > cursor_pos {
            (cursor_pos as usize, anchor_pos as usize)
        } else {
            (anchor_pos as usize, cursor_pos as usize)
        }
    }

    /// Whether anything is selected.
    pub fn has_selection(&self) -> (selected: bool)
        requires
            self.bytes().len() <= i32::MAX,
        ensures
            selected == (self.selection().0 != self.selection().1),
    {
        let (anchor_pos, cursor_pos) = self.selection_anchor_and_cursor();
        anchor_pos != cursor_pos
    }

    /// Where a move of the cursor in `direction` ends.
    pub fn cursor_target(&self, direction: TextCursorDirection, renderer_offset: usize) -> (target:
        usize)
        requires
            is_char_boundary(self.bytes(), self.last_cursor_pos()),
        ensures
            target == self.target(direction, renderer_offset),
            !direction.asks_renderer() && !direction.by_paragraph() ==> target
                <= self.bytes().len() && is_char_boundary(self.bytes(), target as int),
    {
        broadcast use encode_utf8_valid_utf8;

        let text = self.text.as_str();
        let len = text.as_bytes().len();
        let last_cursor_pos = if self.cursor_position < 0 || self.cursor_position as usize > len {
            len
        } else {
            self.cursor_position as usize
        };
        proof {
            vstd::utf8::is_char_boundary_start_end_of_seq(self.bytes());
        }
        match direction {
            TextCursorDirection::Forward => match next_grapheme_boundary(text, last_cursor_pos) {
                Some(next) => next,
                None => len,
            },
            TextCursorDirection::Backward => match prev_grapheme_boundary(text, last_cursor_pos) {
                Some(prev) => prev,
                None => 0,
            },
            TextCursorDirection::NextLine => renderer_offset,
            TextCursorDirection::PreviousLine => renderer_offset,
            TextCursorDirection::StartOfLine => renderer_offset,
            TextCursorDirection::EndOfLine => renderer_offset,
            TextCursorDirection::PreviousCharacter => previous_character(text, last_cursor_pos),
            // Moving by word behaves as on macOS: to the next end of a word
            // forward, to the previous start of a word backward.
            TextCursorDirection::ForwardByWord => {
                let words = unicode_word_indices(text);
                let end = forward_by_word(&words, last_cursor_pos, len);
                proof {
                    lemma_forward_by_word_is_boundary(words@, self.bytes(), last_cursor_pos, len);
                }
                end
            },
            TextCursorDirection::BackwardByWord => {
                let words = unicode_word_indices(text);
                let start = backward_by_word(&words, last_cursor_pos);
                proof {
                    lemma_backward_by_word_is_boundary(words@, self.bytes(), last_cursor_pos, 0);
                }
                start
            },
            TextCursorDirection::StartOfParagraph => start_of_paragraph(
                text.as_bytes(),
                last_cursor_pos,
            ),
            TextCursorDirection::EndOfParagraph => end_of_paragraph(
                text.as_bytes(),
                last_cursor_pos,
            ),
            TextCursorDirection::StartOfText => 0,
            TextCursorDirection::EndOfText => len,
        }
    }
}

impl TextInput {
    /// The position that the cursor has after a move in `direction`.
    pub open spec fn target_position(
        self,
        direction: TextCursorDirection,
        renderer_offset: usize,
    ) -> i32 {
        (self.target(direction, renderer_offset) as usize) as i32
    }

    /// The text with `inserted` in the place of the selection, as bytes.
    pub open spec fn replaced(self, inserted: Seq<char>) -> Seq<u8> {
        self.bytes().subrange(0, self.selection().0) + encode_utf8(inserted)
            + self.bytes().subrange(self.selection().1, self.bytes().len() as int)
    }

    /// What is inserted for `text`: in a single line, a newline becomes a
    /// space.
    pub open spec fn sanitized(self, text: Seq<char>) -> Seq<char> {
        if self.single_line {
            spaces_for_newlines(text)
        } else {
            text
        }
    }

    /// Takes note that the renderer has found the cursor at `origin` after it
    /// was moved. Unless the column that the cursor wants to be in is to be
    /// kept, it is the column of `origin` now.
    pub fn cursor_placed(&mut self, origin: Point, keep_preferred_x_pos: bool)
        ensures
            *final(self) == (TextInput {
                preferred_x_pos: if keep_preferred_x_pos {
                    old(self).preferred_x_pos
                } else {
                    origin.x
                },
                ..*old(self)
            }),
    {
        if !keep_preferred_x_pos {
            self.preferred_x_pos = origin.x;
        }
    }

    /// Sets the cursor position. Where the position is not negative, it is
    /// for the caller to ask the renderer where the cursor now stands, to
    /// hand the answer to `cursor_placed`, and to tell who listens to changes
    /// of the cursor position.
    pub fn set_cursor_position(&mut self, new_position: i32)
        ensures
            *final(self) == old(self).with_cursor(new_position),
    {
        self.cursor_position = new_position;
    }

    /// Moves the cursor, and the anchor with it unless it is to be kept, and
    /// returns true if the cursor position changed. In an empty text nothing
    /// moves.
    pub fn move_cursor(
        &mut self,
        direction: TextCursorDirection,
        anchor_mode: AnchorMode,
        renderer_offset: usize,
    ) -> (moved: bool)
        requires
            is_char_boundary(old(self).bytes(), old(self).last_cursor_pos()),
        ensures
            final(self).text == old(self).text,
            final(self).same_settings(*old(self)),
            old(self).text@.len() == 0 ==> !moved && *final(self) == *old(self),
            old(self).text@.len() > 0 ==> {
                &&& moved == (old(self).target(direction, renderer_offset) != old(
                    self,
                ).last_cursor_pos())
                &&& final(self).cursor_position == old(self).target_position(
                    direction,
                    renderer_offset,
                )
                &&& final(self).anchor_position == (match anchor_mode {
                    AnchorMode::KeepAnchor => old(self).anchor_position,
                    AnchorMode::MoveAnchor => old(self).target_position(direction, renderer_offset),
                })
                &&& !direction.asks_renderer() && !direction.by_paragraph() ==> {
                    &&& 0 <= old(self).target(direction, renderer_offset) <= old(self).bytes().len()
                    &&& is_char_boundary(
                        old(self).bytes(),
                        old(self).target(direction, renderer_offset),
                    )
                }
            },
    {
        if self.text.as_str().is_empty() {
            return false;
        }
        let len = self.text.as_str().as_bytes().len();
        let last_cursor_pos = if self.cursor_position < 0 || self.cursor_position as usize > len {
            len
        } else {
            self.cursor_position as usize
        };
        let new_cursor_pos = self.cursor_target(direction, renderer_offset);
        let new_position = #[verifier::truncate]
        (new_cursor_pos as i32);
        match anchor_mode {
            AnchorMode::KeepAnchor => {},
            AnchorMode::MoveAnchor => {
                self.anchor_position = new_position;
            },
        }
        self.set_cursor_position(new_position);
        new_cursor_pos != last_cursor_pos
    }

    /// Puts `inserted` in the place of the selection. The positions are left
    /// as they are.
    fn replace_selection(&mut self, inserted: &str)
        requires
            old(self).bytes().len() <= i32::MAX,
            old(self).selection_on_char_boundaries(),
        ensures
            final(self).bytes() == old(self).replaced(inserted@),
            final(self).cursor_position == old(self).cursor_position,
            final(self).anchor_position == old(self).anchor_position,
            final(self).same_settings(*old(self)),
    {
        let (anchor, cursor) = self.selection_anchor_and_cursor();
        let text = self.text.as_str();
        let (head, _) = text.split_at(anchor);
        let (_, tail) = text.split_at(cursor);
        let mut edited = String::from_str(head);
        edited.append(inserted);
        edited.append(tail);
        proof {
            lemma_encode_concat(head@, inserted@);
            lemma_encode_concat(head@ + inserted@, tail@);
        }
        self.text = edited;
    }

    /// Removes the selected text, and puts the cursor where it was. Returns
    /// whether the text was edited: it is for the caller to tell who listens.
    pub fn delete_selection(&mut self) -> (edited: bool)
        requires
            old(self).bytes().len() <= i32::MAX,
            old(self).selection_on_char_boundaries(),
        ensures
            edited == (old(self).selection().0 != old(self).selection().1),
            !edited ==> *final(self) == *old(self),
            edited ==> {
                &&& final(self).bytes() == old(self).replaced(Seq::empty())
                &&& final(self).cursor_position == old(self).selection().0
                &&& final(self).anchor_position == old(self).selection().0
            },
            final(self).same_settings(*old(self)),
    {
        let (anchor, cursor) = self.selection_anchor_and_cursor();
        if anchor == cursor {
            return false;
        }
        self.replace_selection("");
        proof {
            reveal_strlit("");
        }
        self.anchor_position = anchor as i32;
        self.set_cursor_position(anchor as i32);
        true
    }

    /// This text input with the cursor at `position`.
    pub open spec fn with_cursor(self, position: i32) -> Self {
        TextInput { cursor_position: position, ..self }
    }

    /// This text input once a cursor that selects nothing has moved by
    /// `step`, to select what it passes over.
    pub open spec fn selecting(self, step: TextCursorDirection) -> Self {
        if self.selection().0 != self.selection().1 || self.text@.len() == 0 {
            self
        } else {
            self.with_cursor(self.target_position(step, 0))
        }
    }

    /// Removes what is selected, or, where nothing is selected, what a move
    /// of the cursor by `step` passes over. Returns whether the text was
    /// edited.
    fn select_and_delete(&mut self, step: TextCursorDirection) -> (edited: bool)
        requires
            step is Forward || step is PreviousCharacter || step is ForwardByWord
                || step is BackwardByWord,
            old(self).bytes().len() <= i32::MAX,
            old(self).selection_on_char_boundaries(),
        ensures
            final(self).same_settings(*old(self)),
            ({
                let selecting = old(self).selecting(step);
                &&& edited == (selecting.selection().0 != selecting.selection().1)
                &&& !edited ==> *final(self) == selecting
                &&& edited ==> {
                    &&& final(self).bytes() == selecting.replaced(Seq::empty())
                    &&& final(self).cursor_position == selecting.selection().0
                    &&& final(self).anchor_position == selecting.selection().0
                }
            }),
    {
        broadcast use encode_utf8_valid_utf8;

        proof {
            vstd::utf8::is_char_boundary_start_end_of_seq(self.bytes());
        }
        if !self.has_selection() {
            self.move_cursor(step, AnchorMode::KeepAnchor, 0);
        }
        self.delete_selection()
    }

    /// Puts `inserted` in the place of the selection, and the cursor behind
    /// it.
    fn insert_raw(&mut self, inserted: &str)
        requires
            old(self).bytes().len() + inserted.spec_bytes().len() <= i32::MAX,
            old(self).selection_on_char_boundaries(),
        ensures
            final(self).bytes() == old(self).replaced(inserted@),
            final(self).cursor_position == old(self).selection().0 + inserted.spec_bytes().len(),
            final(self).anchor_position == final(self).cursor_position,
            final(self).same_settings(*old(self)),
    {
        let (anchor, _) = self.selection_anchor_and_cursor();
        self.replace_selection(inserted);
        let cursor_pos = (anchor + inserted.as_bytes().len()) as i32;
        self.anchor_position = cursor_pos;
        self.set_cursor_position(cursor_pos);
    }

    /// Puts `text_to_insert` in the place of the selection, and the cursor
    /// behind it. In a single line a newline becomes a space. It is for the
    /// caller to tell who listens that the text was edited.
    pub fn insert(&mut self, text_to_insert: &str)
        requires
            old(self).bytes().len() + text_to_insert.spec_bytes().len() <= i32::MAX,
            old(self).selection_on_char_boundaries(),
        ensures
            final(self).bytes() == old(self).replaced(old(self).sanitized(text_to_insert@)),
            final(self).cursor_position == old(self).selection().0
                + text_to_insert.spec_bytes().len(),
            final(self).anchor_position == final(self).cursor_position,
            final(self).same_settings(*old(self)),
    {
        if self.single_line {
            let replaced = replace_newlines(text_to_insert);
            proof {
                lemma_spaces_for_newlines_len(text_to_insert@);
            }
            self.insert_raw(replaced.as_str());
        } else {
            self.insert_raw(text_to_insert);
        }
    }

    /// Selects the whole text.
    pub fn select_all(&mut self)
        ensures
            final(self).text == old(self).text,
            final(self).same_settings(*old(self)),
            old(self).text@.len() == 0 ==> *final(self) == *old(self),
            old(self).text@.len() > 0 ==> final(self).anchor_position == 0 && final(self).cursor_position == (old(self).bytes().len() as usize) as i32,
    {
        broadcast use encode_utf8_valid_utf8;

        if self.text.as_str().is_empty() {
            return ;
        }
        proof {
            vstd::utf8::is_char_boundary_start_end_of_seq(self.bytes());
        }
        // The position that the move starts from has no say.
        self.cursor_position = 0;
        self.move_cursor(TextCursorDirection::StartOfText, AnchorMode::MoveAnchor, 0);
        self.move_cursor(TextCursorDirection::EndOfText, AnchorMode::KeepAnchor, 0);
    }

    /// The selected text, for the caller to put on the clipboard, if anything
    /// is selected.
    pub fn copy(&self) -> (selected: Option<String>)
        requires
            self.bytes().len() <= i32::MAX,
            self.selection_on_char_boundaries(),
        ensures
            self.copied(selected),
    {
        broadcast use encode_utf8_valid_utf8;

        let (anchor, cursor) = self.selection_anchor_and_cursor();
        if anchor == cursor {
            return None;
        }
        proof {
            lemma_boundary_in_prefix(self.bytes(), anchor as int, cursor as int);
        }
        let text = self.text.as_str();
        let (upto_cursor, _) = text.split_at(cursor);
        let (_, selected) = upto_cursor.split_at(anchor);
        assert(selected.spec_bytes() =~= self.bytes().subrange(anchor as int, cursor as int));
        Some(String::from_str(selected))
    }

    /// Inserts the text of the clipboard, if the caller has found any there.
    pub fn paste(&mut self, clipboard: Option<&str>)
        requires
            old(self).bytes().len() <= i32::MAX,
            clipboard matches Some(text) ==> old(self).bytes().len() + text.spec_bytes().len()
                <= i32::MAX,
            old(self).selection_on_char_boundaries(),
        ensures
            match clipboard {
                Some(text) => {
                    &&& final(self).bytes() == old(self).replaced(old(self).sanitized(text@))
                    &&& final(self).cursor_position == old(self).selection().0
                        + text.spec_bytes().len()
                    &&& final(self).anchor_position == final(self).cursor_position
                },
                None => *final(self) == *old(self),
            },
            final(self).same_settings(*old(self)),
    {
        match clipboard {
            Some(text) => self.insert(text),
            None => {},
        }
    }
}

impl TextInput {
    /// What `event` asks of this text input. A shortcut for text editing
    /// goes first, then the return key in a single line, then the standard
    /// shortcuts, and what is left is typed in, if it can be.
    pub open spec fn key_action(self, event: KeyEvent, os: TargetOs) -> KeyAction {
        if !self.enabled || event.event_type != KeyEventType::KeyPressed {
            KeyAction::Ignore
        } else {
            match event.spec_text_shortcut(os) {
                Some(shortcut) => if self.read_only {
                    KeyAction::Ignore
                } else {
                    match shortcut {
                        TextShortcut::Move(direction) => KeyAction::Move(direction),
                        TextShortcut::DeleteForward => KeyAction::Delete(
                            TextCursorDirection::Forward,
                        ),
                        // Backspace breaks the grapheme and removes the
                        // previous character.
                        TextShortcut::DeleteBackward => KeyAction::Delete(
                            TextCursorDirection::PreviousCharacter,
                        ),
                        TextShortcut::DeleteWordForward => KeyAction::Delete(
                            TextCursorDirection::ForwardByWord,
                        ),
                        TextShortcut::DeleteWordBackward => KeyAction::Delete(
                            TextCursorDirection::BackwardByWord,
                        ),
                    }
                },
                None => if event.text@.len() > 0 && event.text@[0] == key_codes::Return
                    && !self.read_only && self.single_line {
                    KeyAction::Accept
                } else if !is_insertable_spec(event.text@) {
                    KeyAction::Ignore
                } else {
                    match event.spec_shortcut(os) {
                        Some(StandardShortcut::SelectAll) => KeyAction::SelectAll,
                        Some(StandardShortcut::Copy) => KeyAction::Copy,
                        Some(StandardShortcut::Paste) => if self.read_only {
                            KeyAction::Ignore
                        } else {
                            KeyAction::Paste
                        },
                        Some(StandardShortcut::Cut) => if self.read_only {
                            KeyAction::Ignore
                        } else {
                            KeyAction::Cut
                        },
                        _ => if self.read_only || event.modifiers.control {
                            KeyAction::Ignore
                        } else {
                            KeyAction::Insert
                        },
                    }
                },
            }
        }
    }

    /// What `event` asks of this text input.
    pub fn decide_key(&self, event: &KeyEvent, os: TargetOs) -> (action: KeyAction)
        ensures
            action == self.key_action(*event, os),
            action matches KeyAction::Delete(step) ==> step is Forward || step is PreviousCharacter
                || step is ForwardByWord || step is BackwardByWord,
    {
        if !self.enabled {
            return KeyAction::Ignore;
        }
        match event.event_type {
            KeyEventType::KeyPressed => {},
            KeyEventType::KeyReleased => {
                return KeyAction::Ignore;
            },
        }
        match event.text_shortcut(os) {
            Some(shortcut) => {
                if self.read_only {
                    return KeyAction::Ignore;
                }
                return match shortcut {
                    TextShortcut::Move(direction) => KeyAction::Move(direction),
                    TextShortcut::DeleteForward => KeyAction::Delete(TextCursorDirection::Forward),
                    TextShortcut::DeleteBackward => KeyAction::Delete(
                        TextCursorDirection::PreviousCharacter,
                    ),
                    TextShortcut::DeleteWordForward => KeyAction::Delete(
                        TextCursorDirection::ForwardByWord,
                    ),
                    TextShortcut::DeleteWordBackward => KeyAction::Delete(
                        TextCursorDirection::BackwardByWord,
                    ),
                };
            },
            None => {},
        }
        let text = event.text.as_str();
        if text.unicode_len() > 0 {
            let keycode = text.get_char(0);
            if keycode == key_codes::Return && !self.read_only && self.single_line {
                return KeyAction::Accept;
            }
        }
        // Only insert or interpret strings without control characters.
        if !is_insertable(text) {
            return KeyAction::Ignore;
        }
        match event.shortcut(os) {
            Some(StandardShortcut::SelectAll) => KeyAction::SelectAll,
            Some(StandardShortcut::Copy) => KeyAction::Copy,
            Some(StandardShortcut::Paste) => if self.read_only {
                KeyAction::Ignore
            } else {
                KeyAction::Paste
            },
            Some(StandardShortcut::Cut) => if self.read_only {
                KeyAction::Ignore
            } else {
                KeyAction::Cut
            },
            _ => if self.read_only || event.modifiers.control {
                KeyAction::Ignore
            } else {
                KeyAction::Insert
            },
        }
    }

    /// Applies a key event to the text input. `renderer_offset` is what the
    /// renderer answers for a move by lines, and is not looked at for any
    /// other event; `clipboard` is the text that the clipboard holds, if any.
    ///
    /// Whenever the cursor has moved or text was inserted, the caller keeps
    /// the cursor visible.
    pub fn key_event(
        &mut self,
        event: &KeyEvent,
        os: TargetOs,
        renderer_offset: usize,
        clipboard: Option<&str>,
    ) -> (outcome: KeyEventOutcome)
        requires
            old(self).bytes().len() + encode_utf8(event.text@).len() <= i32::MAX,
            clipboard matches Some(text) ==> old(self).bytes().len() + text.spec_bytes().len()
                <= i32::MAX,
            old(self).selection_on_char_boundaries(),
        ensures
            final(self).same_settings(*old(self)),
            outcome.result == (if old(self).key_action(*event, os) is Ignore {
                KeyEventResult::EventIgnored
            } else {
                KeyEventResult::EventAccepted
            }),
            outcome.accepted == (old(self).key_action(*event, os) is Accept),
            match old(self).key_action(*event, os) {
                KeyAction::Ignore | KeyAction::Accept => {
                    &&& *final(self) == *old(self)
                    &&& !outcome.edited
                    &&& outcome.copied is None
                },
                KeyAction::Move(direction) => {
                    let mode = if event.modifiers.shift {
                        AnchorMode::KeepAnchor
                    } else {
                        AnchorMode::MoveAnchor
                    };
                    &&& final(self).text == old(self).text
                    &&& !outcome.edited
                    &&& outcome.copied is None
                    &&& old(self).text@.len() == 0 ==> *final(self) == *old(self)
                    &&& old(self).text@.len() > 0 ==> {
                        &&& final(self).cursor_position == old(self).target_position(
                            direction,
                            renderer_offset,
                        )
                        &&& final(self).anchor_position == (match mode {
                            AnchorMode::KeepAnchor => old(self).anchor_position,
                            AnchorMode::MoveAnchor => old(self).target_position(
                                direction,
                                renderer_offset,
                            ),
                        })
                    }
                },
                KeyAction::Delete(step) => {
                    let selecting = old(self).selecting(step);
                    &&& outcome.copied is None
                    &&& outcome.edited == (selecting.selection().0 != selecting.selection().1)
                    &&& !outcome.edited ==> *final(self) == selecting
                    &&& outcome.edited ==> {
                        &&& final(self).bytes() == selecting.replaced(Seq::empty())
                        &&& final(self).cursor_position == selecting.selection().0
                        &&& final(self).anchor_position == selecting.selection().0
                    }
                },
                KeyAction::SelectAll => {
                    &&& final(self).text == old(self).text
                    &&& !outcome.edited
                    &&& outcome.copied is None
                    &&& old(self).text@.len() == 0 ==> *final(self) == *old(self)
                    &&& old(self).text@.len() > 0 ==> final(self).anchor_position == 0 && final(self).cursor_position == old(self).bytes().len()
                },
                KeyAction::Copy => {
                    &&& *final(self) == *old(self)
                    &&& !outcome.edited
                    &&& old(self).copied(outcome.copied)
                },
                KeyAction::Cut => {
                    &&& old(self).copied(outcome.copied)
                    &&& outcome.edited == (old(self).selection().0 != old(self).selection().1)
                    &&& !outcome.edited ==> *final(self) == *old(self)
                    &&& outcome.edited ==> {
                        &&& final(self).bytes() == old(self).replaced(Seq::empty())
                        &&& final(self).cursor_position == old(self).selection().0
                        &&& final(self).anchor_position == old(self).selection().0
                    }
                },
                KeyAction::Paste => {
                    &&& outcome.copied is None
                    &&& outcome.edited == clipboard is Some
                    &&& match clipboard {
                        Some(text) => {
                            &&& final(self).bytes() == old(self).replaced(
                                old(self).sanitized(text@),
                            )
                            &&& final(self).cursor_position == old(self).selection().0
                                + text.spec_bytes().len()
                            &&& final(self).anchor_position == final(self).cursor_position
                        },
                        None => *final(self) == *old(self),
                    }
                },
                KeyAction::Insert => {
                    &&& outcome.copied is None
                    &&& outcome.edited
                    &&& final(self).bytes() == old(self).replaced(event.text@)
                    &&& final(self).cursor_position == old(self).selection().0 + encode_utf8(
                        event.text@,
                    ).len()
                    &&& final(self).anchor_position == final(self).cursor_position
                },
            },
    {
        broadcast use encode_utf8_valid_utf8;

        proof {
            vstd::utf8::is_char_boundary_start_end_of_seq(self.bytes());
        }
        let mut outcome = KeyEventOutcome {
            result: KeyEventResult::EventAccepted,
            accepted: false,
            edited: false,
            copied: None,
        };
        match self.decide_key(event, os) {
            KeyAction::Ignore => {
                outcome.result = KeyEventResult::EventIgnored;
            },
            KeyAction::Move(direction) => {
                self.move_cursor(direction, AnchorMode::from(event.modifiers), renderer_offset);
            },
            KeyAction::Delete(step) => {
                outcome.edited = self.select_and_delete(step);
            },
            KeyAction::Accept => {
                outcome.accepted = true;
            },
            KeyAction::SelectAll => {
                self.select_all();
            },
            KeyAction::Copy => {
                outcome.copied = self.copy();
            },
            KeyAction::Paste => {
                self.paste(clipboard);
                outcome.edited = clipboard.is_some();
            },
            KeyAction::Cut => {
                outcome.copied = self.copy();
                outcome.edited = self.delete_selection();
            },
            KeyAction::Insert => {
                self.insert_raw(event.text.as_str());
                outcome.edited = true;
            },
        }
        outcome
    }

    /// Applies a mouse event to the text input. `renderer_offset` is the byte
    /// offset that the renderer finds at the position of the event, and is
    /// looked at only where the left button is pressed or held.
    ///
    /// A press of the left button puts the cursor there and starts a
    /// selection, which a move with the button held extends.
    pub fn input_event(&mut self, event: MouseEvent, renderer_offset: usize) -> (outcome:
        MouseEventOutcome)
        ensures
            final(self).text == old(self).text,
            final(self).single_line == old(self).single_line,
            final(self).read_only == old(self).read_only,
            final(self).enabled == old(self).enabled,
            final(self).has_focus == old(self).has_focus,
            final(self).cursor_visible == old(self).cursor_visible,
            final(self).preferred_x_pos == old(self).preferred_x_pos,
            !old(self).enabled ==> *final(self) == *old(self) && outcome.result
                == InputEventResult::EventIgnored && !outcome.request_focus,
            old(self).enabled ==> (match event {
                MouseEvent::Pressed { button: PointerEventButton::Left, .. } => {
                    &&& outcome.result == InputEventResult::EventAccepted
                    &&& outcome.request_focus == !old(self).has_focus
                    &&& final(self).pressed
                    &&& final(self).anchor_position == renderer_offset as i32
                    &&& final(self).cursor_position == renderer_offset as i32
                },
                MouseEvent::Released { button: PointerEventButton::Left, .. }
                | MouseEvent::Exit => {
                    &&& outcome.result == InputEventResult::EventAccepted
                    &&& !outcome.request_focus
                    &&& !final(self).pressed
                    &&& final(self).anchor_position == old(self).anchor_position
                    &&& final(self).cursor_position == old(self).cursor_position
                },
                MouseEvent::Moved { .. } => {
                    &&& outcome.result == InputEventResult::EventAccepted
                    &&& !outcome.request_focus
                    &&& final(self).pressed == old(self).pressed
                    &&& final(self).anchor_position == old(self).anchor_position
                    &&& final(self).cursor_position == (if old(self).pressed {
                        renderer_offset as i32
                    } else {
                        old(self).cursor_position
                    })
                },
                _ => {
                    &&& outcome.result == InputEventResult::EventIgnored
                    &&& !outcome.request_focus
                    &&& *final(self) == *old(self)
                },
            }),
    {
        let ignored = MouseEventOutcome {
            result: InputEventResult::EventIgnored,
            request_focus: false,
        };
        if !self.enabled {
            return ignored;
        }
        let clicked_offset = #[verifier::truncate]
        (renderer_offset as i32);
        let mut request_focus = false;
        match event {
            MouseEvent::Pressed { button: PointerEventButton::Left, .. } => {
                self.pressed = true;
                self.anchor_position = clicked_offset;
                self.set_cursor_position(clicked_offset);
                request_focus = !self.has_focus;
            },
            MouseEvent::Released { button: PointerEventButton::Left, .. } => {
                self.pressed = false;
            },
            MouseEvent::Exit => {
                self.pressed = false;
            },
            MouseEvent::Moved { .. } => {
                if self.pressed {
                    self.set_cursor_position(clicked_offset);
                }
            },
            _ => {
                return ignored;
            },
        }
        MouseEventOutcome { result: InputEventResult::EventAccepted, request_focus }
    }

    /// Takes note that the text input, or its window, has received or lost
    /// the keyboard focus. Without the focus the cursor is not drawn.
    pub fn focus_event(&mut self, event: FocusEvent) -> (result: FocusEventResult)
        ensures
            result == FocusEventResult::FocusAccepted,
            final(self).has_focus == (event is FocusIn || event is WindowReceivedFocus),
            final(self).cursor_visible == final(self).has_focus,
            final(self).text == old(self).text,
            final(self).cursor_position == old(self).cursor_position,
            final(self).anchor_position == old(self).anchor_position,
            final(self).single_line == old(self).single_line,
            final(self).read_only == old(self).read_only,
            final(self).enabled == old(self).enabled,
            final(self).pressed == old(self).pressed,
            final(self).preferred_x_pos == old(self).preferred_x_pos,
    {
        match event {
            FocusEvent::FocusIn | FocusEvent::WindowReceivedFocus => {
                self.has_focus = true;
                self.cursor_visible = true;
            },
            FocusEvent::FocusOut | FocusEvent::WindowLostFocus => {
                self.has_focus = false;
                self.cursor_visible = false;
            },
        }
        FocusEventResult::FocusAccepted
    }

    /// Whether `text` is what a copy of the selection yields.
    pub open spec fn copied(self, text: Option<String>) -> bool {
        match text {
            Some(t) => self.selection().0 != self.selection().1 && encode_utf8(t@)
                == self.bytes().subrange(self.selection().0, self.selection().1),
            None => self.selection().0 == self.selection().1,
        }
    }
}

} // verus!
