//! Key events, and the shortcuts that they stand for.

use super::key_codes;
use vstd::prelude::*;
use vstd::string::StrSliceExecFns;

verus! {

/// The modifier keys that are held.
///
/// On macOS the command key is the meta modifier, on Windows the windows key.
#[derive(Debug, Clone, Copy, PartialEq, Eq, Structural)]
pub struct KeyboardModifiers {
    /// The alt key.
    pub alt: bool,
    /// The control key.
    pub control: bool,
    /// The logo key on macOS and the windows key on Windows.
    pub meta: bool,
    /// The shift key.
    pub shift: bool,
}

impl Default for KeyboardModifiers {
    fn default() -> (modifiers: Self)
        ensures
            modifiers == (KeyboardModifiers {
                alt: false,
                control: false,
                meta: false,
                shift: false,
            }),
    {
        KeyboardModifiers { alt: false, control: false, meta: false, shift: false }
    }
}

/// The kinds of key events.
#[derive(Debug, Clone, Copy, PartialEq, Eq, Structural)]
pub enum KeyEventType {
    /// A key on a keyboard was pressed.
    KeyPressed,
    /// A key on a keyboard was released.
    KeyReleased,
}

impl Default for KeyEventType {
    fn default() -> (event_type: Self)
        ensures
            event_type == KeyEventType::KeyPressed,
    {
        KeyEventType::KeyPressed
    }
}

/// The operating system whose keyboard conventions apply.
#[derive(Debug, Clone, Copy, PartialEq, Eq, Structural)]
pub enum TargetOs {
    MacOs,
    Windows,
    Other,
}

/// A shortcut that means the same in every context.
#[derive(Debug, Clone, Copy, PartialEq, Eq, Structural)]
pub enum StandardShortcut {
    Copy,
    Cut,
    Paste,
    SelectAll,
    Find,
    Save,
    Print,
    Undo,
    Redo,
    Refresh,
}

/// Where a key moves the text cursor.
#[derive(Debug, Clone, Copy, PartialEq, Eq, Structural)]
pub enum TextCursorDirection {
    Forward,
    Backward,
    ForwardByWord,
    BackwardByWord,
    NextLine,
    PreviousLine,
    /// Breaks grapheme boundaries, so only used to delete the previous
    /// character.
    PreviousCharacter,
    StartOfLine,
    EndOfLine,
    /// The paragraph directions pay no attention to wrapping.
    StartOfParagraph,
    EndOfParagraph,
    StartOfText,
    EndOfText,
}

impl TextCursorDirection {
    /// Whether the move goes by lines, which only the renderer knows.
    pub open spec fn asks_renderer(self) -> bool {
        self is NextLine || self is PreviousLine || self is StartOfLine || self is EndOfLine
    }

    /// Whether the move goes by lines, so that the renderer has to be asked
    /// where it ends.
    pub fn goes_by_lines(self) -> (by_lines: bool)
        ensures
            by_lines == self.asks_renderer(),
    {
        match self {
            TextCursorDirection::NextLine
            | TextCursorDirection::PreviousLine
            | TextCursorDirection::StartOfLine
            | TextCursorDirection::EndOfLine => true,
            _ => false,
        }
    }

    /// Whether the move goes to an end of the paragraph.
    pub open spec fn by_paragraph(self) -> bool {
        self is StartOfParagraph || self is EndOfParagraph
    }

    /// The direction that the key `value` stands for when no modifier
    /// changes its meaning.
    pub open spec fn of_key(value: char, os: TargetOs) -> Result<TextCursorDirection, ()> {
        if value == key_codes::LeftArrow {
            Ok(TextCursorDirection::Backward)
        } else if value == key_codes::RightArrow {
            Ok(TextCursorDirection::Forward)
        } else if value == key_codes::UpArrow {
            Ok(TextCursorDirection::PreviousLine)
        } else if value == key_codes::DownArrow {
            Ok(TextCursorDirection::NextLine)
        } else if value == key_codes::Home && os != TargetOs::MacOs {
            Ok(TextCursorDirection::StartOfLine)
        } else if value == key_codes::End && os != TargetOs::MacOs {
            Ok(TextCursorDirection::EndOfLine)
        } else {
            Err(())
        }
    }

    /// The direction of an arrow key, and of the home and end keys where
    /// they move within the line: on macOS these two scroll the page.
    pub fn try_from(value: char, os: TargetOs) -> (direction: Result<Self, ()>)
        ensures
            direction == Self::of_key(value, os),
    {
        let mac = match os {
            TargetOs::MacOs => true,
            _ => false,
        };
        if value == key_codes::LeftArrow {
            Ok(Self::Backward)
        } else if value == key_codes::RightArrow {
            Ok(Self::Forward)
        } else if value == key_codes::UpArrow {
            Ok(Self::PreviousLine)
        } else if value == key_codes::DownArrow {
            Ok(Self::NextLine)
        } else if value == key_codes::Home && !mac {
            Ok(Self::StartOfLine)
        } else if value == key_codes::End && !mac {
            Ok(Self::EndOfLine)
        } else {
            Err(())
        }
    }
}

/// A shortcut that edits text.
#[derive(Debug, Clone, Copy, PartialEq, Eq, Structural)]
pub enum TextShortcut {
    /// Move the cursor.
    Move(TextCursorDirection),
    /// Delete the character to the right of the cursor.
    DeleteForward,
    /// Delete the character to the left of the cursor.
    DeleteBackward,
    /// Delete the word to the right of the cursor.
    DeleteWordForward,
    /// Delete the word to the left of the cursor.
    DeleteWordBackward,
}

/// A key event sent by the windowing system.
#[derive(Debug, Clone, PartialEq, Eq)]
pub struct KeyEvent {
    /// The keyboard modifiers active at the time of the event.
    pub modifiers: KeyboardModifiers,
    /// The unicode representation of the key.
    pub text: String,
    /// Whether the key was pressed or released.
    pub event_type: KeyEventType,
}

impl Default for KeyEvent {
    fn default() -> (event: Self)
        ensures
            event.modifiers == (KeyboardModifiers {
                alt: false,
                control: false,
                meta: false,
                shift: false,
            }),
            event.text@ == Seq::<char>::empty(),
            event.event_type == KeyEventType::KeyPressed,
    {
        KeyEvent {
            modifiers: KeyboardModifiers::default(),
            text: String::new(),
            event_type: KeyEventType::default(),
        }
    }
}

impl KeyEvent {
    /// The shortcut that the letter `key` stands for with control held and
    /// shift not.
    pub open spec fn control_shortcut(key: char, os: TargetOs) -> Option<StandardShortcut> {
        if key == 'c' {
            Some(StandardShortcut::Copy)
        } else if key == 'x' {
            Some(StandardShortcut::Cut)
        } else if key == 'v' {
            Some(StandardShortcut::Paste)
        } else if key == 'a' {
            Some(StandardShortcut::SelectAll)
        } else if key == 'f' {
            Some(StandardShortcut::Find)
        } else if key == 's' {
            Some(StandardShortcut::Save)
        } else if key == 'p' {
            Some(StandardShortcut::Print)
        } else if key == 'z' {
            Some(StandardShortcut::Undo)
        } else if key == 'y' && os == TargetOs::Windows {
            Some(StandardShortcut::Redo)
        } else if key == 'r' {
            Some(StandardShortcut::Refresh)
        } else {
            None
        }
    }

    /// The shortcut that the event stands for, if any: control and one
    /// letter, or, for redo where Windows conventions do not apply, control,
    /// shift and `z`.
    pub open spec fn spec_shortcut(self, os: TargetOs) -> Option<StandardShortcut> {
        if !self.modifiers.control || self.text@.len() != 1 {
            None
        } else if !self.modifiers.shift {
            Self::control_shortcut(self.text@[0], os)
        } else if self.text@[0] == 'z' && os != TargetOs::Windows {
            Some(StandardShortcut::Redo)
        } else {
            None
        }
    }

    /// If a shortcut was pressed, this function returns it.
    pub fn shortcut(&self, os: TargetOs) -> (shortcut: Option<StandardShortcut>)
        ensures
            shortcut == self.spec_shortcut(os),
    {
        let text = self.text.as_str();
        if !self.modifiers.control || text.unicode_len() != 1 {
            return None;
        }
        let key = text.get_char(0);
        let windows = match os {
            TargetOs::Windows => true,
            _ => false,
        };
        if !self.modifiers.shift {
            if key == 'c' {
                Some(StandardShortcut::Copy)
            } else if key == 'x' {
                Some(StandardShortcut::Cut)
            } else if key == 'v' {
                Some(StandardShortcut::Paste)
            } else if key == 'a' {
                Some(StandardShortcut::SelectAll)
            } else if key == 'f' {
                Some(StandardShortcut::Find)
            } else if key == 's' {
                Some(StandardShortcut::Save)
            } else if key == 'p' {
                Some(StandardShortcut::Print)
            } else if key == 'z' {
                Some(StandardShortcut::Undo)
            } else if key == 'y' && windows {
                Some(StandardShortcut::Redo)
            } else if key == 'r' {
                Some(StandardShortcut::Refresh)
            } else {
                None
            }
        } else if key == 'z' && !windows {
            Some(StandardShortcut::Redo)
        } else {
            None
        }
    }

    /// Whether the modifier that moves by words and paragraphs is held, alone
    /// among control, alt and meta: alt on macOS, control elsewhere.
    pub open spec fn move_modifier(self, os: TargetOs) -> bool {
        if os == TargetOs::MacOs {
            self.modifiers.alt && !self.modifiers.control && !self.modifiers.meta
        } else {
            self.modifiers.control && !self.modifiers.alt && !self.modifiers.meta
        }
    }

    /// What `keycode` means with the modifier that moves by words held.
    pub open spec fn word_shortcut(keycode: char) -> Option<TextShortcut> {
        if keycode == key_codes::LeftArrow {
            Some(TextShortcut::Move(TextCursorDirection::BackwardByWord))
        } else if keycode == key_codes::RightArrow {
            Some(TextShortcut::Move(TextCursorDirection::ForwardByWord))
        } else if keycode == key_codes::UpArrow {
            Some(TextShortcut::Move(TextCursorDirection::StartOfParagraph))
        } else if keycode == key_codes::DownArrow {
            Some(TextShortcut::Move(TextCursorDirection::EndOfParagraph))
        } else if keycode == key_codes::Backspace {
            Some(TextShortcut::DeleteWordBackward)
        } else if keycode == key_codes::Delete {
            Some(TextShortcut::DeleteWordForward)
        } else {
            None
        }
    }

    /// What `keycode` means with control held, once the word shortcuts are
    /// ruled out: the ends of the text and, on macOS, of the line.
    pub open spec fn control_text_shortcut(self, keycode: char, os: TargetOs) -> Option<
        TextShortcut,
    > {
        if os == TargetOs::MacOs {
            if !self.modifiers.control {
                None
            } else if keycode == key_codes::LeftArrow {
                Some(TextShortcut::Move(TextCursorDirection::StartOfLine))
            } else if keycode == key_codes::RightArrow {
                Some(TextShortcut::Move(TextCursorDirection::EndOfLine))
            } else if keycode == key_codes::UpArrow {
                Some(TextShortcut::Move(TextCursorDirection::StartOfText))
            } else if keycode == key_codes::DownArrow {
                Some(TextShortcut::Move(TextCursorDirection::EndOfText))
            } else {
                None
            }
        } else if !self.move_modifier(os) {
            None
        } else if keycode == key_codes::Home {
            Some(TextShortcut::Move(TextCursorDirection::StartOfText))
        } else if keycode == key_codes::End {
            Some(TextShortcut::Move(TextCursorDirection::EndOfText))
        } else {
            None
        }
    }

    /// What `keycode` means whatever the modifiers.
    pub open spec fn plain_text_shortcut(keycode: char, os: TargetOs) -> Option<TextShortcut> {
        match TextCursorDirection::of_key(keycode, os) {
            Ok(direction) => Some(TextShortcut::Move(direction)),
            Err(_) => if keycode == key_codes::Backspace {
                Some(TextShortcut::DeleteBackward)
            } else if keycode == key_codes::Delete {
                Some(TextShortcut::DeleteForward)
            } else {
                None
            },
        }
    }

    /// The text editing shortcut that the event stands for, if any. The first
    /// character of the text decides. The word shortcuts come first, then
    /// those with control, then the plain keys.
    pub open spec fn spec_text_shortcut(self, os: TargetOs) -> Option<TextShortcut> {
        if self.text@.len() == 0 {
            None
        } else {
            let keycode = self.text@[0];
            if self.move_modifier(os) && Self::word_shortcut(keycode) is Some {
                Self::word_shortcut(keycode)
            } else if self.control_text_shortcut(keycode, os) is Some {
                self.control_text_shortcut(keycode, os)
            } else {
                Self::plain_text_shortcut(keycode, os)
            }
        }
    }

    /// If a shortcut concerning text editing was pressed, this function
    /// returns it.
    pub fn text_shortcut(&self, os: TargetOs) -> (shortcut: Option<TextShortcut>)
        ensures
            shortcut == self.spec_text_shortcut(os),
    {
        let text = self.text.as_str();
        if text.unicode_len() == 0 {
            return None;
        }
        let keycode = text.get_char(0);
        let mac = match os {
            TargetOs::MacOs => true,
            _ => false,
        };
        let move_mod = if mac {
            self.modifiers.alt && !self.modifiers.control && !self.modifiers.meta
        } else {
            self.modifiers.control && !self.modifiers.alt && !self.modifiers.meta
        };
        if move_mod {
            if keycode == key_codes::LeftArrow {
                return Some(TextShortcut::Move(TextCursorDirection::BackwardByWord));
            } else if keycode == key_codes::RightArrow {
                return Some(TextShortcut::Move(TextCursorDirection::ForwardByWord));
            } else if keycode == key_codes::UpArrow {
                return Some(TextShortcut::Move(TextCursorDirection::StartOfParagraph));
            } else if keycode == key_codes::DownArrow {
                return Some(TextShortcut::Move(TextCursorDirection::EndOfParagraph));
            } else if keycode == key_codes::Backspace {
                return Some(TextShortcut::DeleteWordBackward);
            } else if keycode == key_codes::Delete {
                return Some(TextShortcut::DeleteWordForward);
            }
        }
        if !mac {
            if move_mod {
                if keycode == key_codes::Home {
                    return Some(TextShortcut::Move(TextCursorDirection::StartOfText));
                } else if keycode == key_codes::End {
                    return Some(TextShortcut::Move(TextCursorDirection::EndOfText));
                }
            }
        } else if self.modifiers.control {
            if keycode == key_codes::LeftArrow {
                return Some(TextShortcut::Move(TextCursorDirection::StartOfLine));
            } else if keycode == key_codes::RightArrow {
                return Some(TextShortcut::Move(TextCursorDirection::EndOfLine));
            } else if keycode == key_codes::UpArrow {
                return Some(TextShortcut::Move(TextCursorDirection::StartOfText));
            } else if keycode == key_codes::DownArrow {
                return Some(TextShortcut::Move(TextCursorDirection::EndOfText));
            }
        }
        match TextCursorDirection::try_from(keycode, os) {
            Ok(direction) => Some(TextShortcut::Move(direction)),
            Err(_) => if keycode == key_codes::Backspace {
                Some(TextShortcut::DeleteBackward)
            } else if keycode == key_codes::Delete {
                Some(TextShortcut::DeleteForward)
            } else {
                None
            },
        }
    }
}

} // verus!
