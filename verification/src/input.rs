//! Mouse, key and focus events, what an item answers to them, and how a
//! mouse event finds its way to the items.

pub mod dispatch;
pub mod key_codes;
pub mod keyboard;

pub use dispatch::{
    filter_answered, is_offered, leaves, Filtered, GrabStep, GrabWalk, MouseInputState,
};
pub use keyboard::{
    KeyEvent, KeyEventType, KeyboardModifiers, StandardShortcut, TargetOs, TextCursorDirection,
    TextShortcut,
};

use crate::graphics::{Point, Vector2D};
use vstd::prelude::*;

verus! {

/// The button of a pointer event.
#[derive(Debug, Clone, Copy, PartialEq, Eq, Structural)]
pub enum PointerEventButton {
    /// A button that is neither of the three below.
    Other,
    Left,
    Right,
    Middle,
}

/// A mouse or touch event.
#[derive(Debug, Clone, Copy, PartialEq, Eq, Structural)]
pub enum MouseEvent {
    /// The mouse or finger was pressed.
    Pressed { position: Point, button: PointerEventButton },
    /// The mouse or finger was released.
    Released { position: Point, button: PointerEventButton },
    /// The position of the pointer has changed.
    Moved { position: Point },
    /// The wheel was operated. `position` is where the mouse was then, `delta`
    /// the amount of pixels to scroll.
    Wheel { position: Point, delta: Point },
    /// The mouse exited the item or component.
    Exit,
}

impl MouseEvent {
    /// The position of the cursor for this event, if it has one.
    pub open spec fn spec_position(&self) -> Option<Point> {
        match *self {
            MouseEvent::Pressed { position, .. } => Some(position),
            MouseEvent::Released { position, .. } => Some(position),
            MouseEvent::Moved { position } => Some(position),
            MouseEvent::Wheel { position, .. } => Some(position),
            MouseEvent::Exit => None,
        }
    }

    /// This event at another position.
    pub open spec fn at(self, to: Point) -> MouseEvent {
        match self {
            MouseEvent::Pressed { button, .. } => MouseEvent::Pressed { position: to, button },
            MouseEvent::Released { button, .. } => MouseEvent::Released { position: to, button },
            MouseEvent::Moved { .. } => MouseEvent::Moved { position: to },
            MouseEvent::Wheel { delta, .. } => MouseEvent::Wheel { position: to, delta },
            MouseEvent::Exit => MouseEvent::Exit,
        }
    }

    /// The position of the cursor for this event, if any.
    #[verifier::when_used_as_spec(spec_position)]
    pub fn position(&self) -> (position: Option<Point>)
        ensures
            position == self.spec_position(),
    {
        match self {
            MouseEvent::Pressed { position, .. } => Some(*position),
            MouseEvent::Released { position, .. } => Some(*position),
            MouseEvent::Moved { position } => Some(*position),
            MouseEvent::Wheel { position, .. } => Some(*position),
            MouseEvent::Exit => None,
        }
    }

    /// Whether the event can be told relative to `origin`: whether it has no
    /// position, or one whose coordinates stay in range.
    pub open spec fn can_be_relative_to(&self, origin: Point) -> bool {
        self.spec_position() matches Some(p) ==> p.can_be_relative_to(origin)
    }

    /// The event as an item sees it whose geometry begins at `origin`.
    pub fn relative_to(&self, origin: Point) -> (event: MouseEvent)
        requires
            self.can_be_relative_to(origin),
        ensures
            event == (match self.spec_position() {
                Some(p) => self.at(Point { x: (p.x - origin.x) as i32, y: (p.y - origin.y) as i32 }),
                None => *self,
            }),
    {
        match *self {
            MouseEvent::Pressed { position, button } => MouseEvent::Pressed {
                position: position.relative_to(origin),
                button,
            },
            MouseEvent::Released { position, button } => MouseEvent::Released {
                position: position.relative_to(origin),
                button,
            },
            MouseEvent::Moved { position } => MouseEvent::Moved {
                position: position.relative_to(origin),
            },
            MouseEvent::Wheel { position, delta } => MouseEvent::Wheel {
                position: position.relative_to(origin),
                delta,
            },
            MouseEvent::Exit => MouseEvent::Exit,
        }
    }

    /// Translates the position by the given value. An event without a
    /// position is left as it is.
    pub fn translate(&mut self, vec: Vector2D)
        requires
            old(self).spec_position() matches Some(p) ==> p.can_translate(vec),
        ensures
            *final(self) == (match old(self).spec_position() {
                Some(p) => old(self).at(p.translated(vec)),
                None => *old(self),
            }),
    {
        match self {
            MouseEvent::Pressed { position, .. } => {
                position.x = position.x + vec.x;
                position.y = position.y + vec.y;
            },
            MouseEvent::Released { position, .. } => {
                position.x = position.x + vec.x;
                position.y = position.y + vec.y;
            },
            MouseEvent::Moved { position } => {
                position.x = position.x + vec.x;
                position.y = position.y + vec.y;
            },
            MouseEvent::Wheel { position, .. } => {
                position.x = position.x + vec.x;
                position.y = position.y + vec.y;
            },
            MouseEvent::Exit => {},
        }
    }
}

/// What the `input_event` function of an item returns, to tell the run-time
/// how the event was handled and what comes next.
#[derive(Debug, Clone, Copy, PartialEq, Eq, Structural)]
pub enum InputEventResult {
    /// The event was accepted. This may result in additional events, for
    /// example accepting a mouse move will result in an exit event later.
    EventAccepted,
    /// The event was ignored.
    EventIgnored,
    /// All further mouse events need to be sent to this item or component.
    GrabMouse,
}

impl Default for InputEventResult {
    fn default() -> (result: Self)
        ensures
            result == InputEventResult::EventIgnored,
    {
        Self::EventIgnored
    }
}

/// What the `input_event_filter_before_children` function of an item returns,
/// to say how the event is processed further.
#[derive(Debug, Clone, Copy, PartialEq, Eq, Structural)]
pub enum InputEventFilterResult {
    /// The event is forwarded to the children, then to the item.
    ForwardEvent,
    /// The event is forwarded to the children, but not to the item.
    ForwardAndIgnore,
    /// As `ForwardEvent`, but the item is asked again for each further event
    /// even where a child grabs the mouse.
    ForwardAndInterceptGrab,
    /// The event is not forwarded to the children. A child that had the grab
    /// loses it, with an exit event.
    Intercept,
    /// As `Intercept`, but the event it holds is forwarded to the children.
    InterceptAndDispatch(MouseEvent),
}

impl Default for InputEventFilterResult {
    fn default() -> (result: Self)
        ensures
            result == InputEventFilterResult::ForwardEvent,
    {
        Self::ForwardEvent
    }
}

/// How the key event handler of an item dealt with a key event. An accepted
/// event is not propagated further.
#[derive(Debug, Clone, Copy, PartialEq, Eq, Structural)]
pub enum KeyEventResult {
    /// The event was handled.
    EventAccepted,
    /// The event was not handled and should be sent to other items.
    EventIgnored,
}

/// How the focus event handler of an item dealt with a focus event. An
/// accepted event is not propagated further.
#[derive(Debug, Clone, Copy, PartialEq, Eq, Structural)]
pub enum FocusEventResult {
    /// The event was handled.
    FocusAccepted,
    /// The event was not handled and should be sent to other items.
    FocusIgnored,
}

/// Sent to a component and to items when they receive or lose the keyboard
/// focus.
#[derive(Debug, Clone, Copy, PartialEq, Eq, Structural)]
pub enum FocusEvent {
    /// An item receives the focus.
    FocusIn,
    /// An item loses the focus.
    FocusOut,
    /// The window receives the keyboard focus.
    WindowReceivedFocus,
    /// The window loses the keyboard focus.
    WindowLostFocus,
}

} // verus!
