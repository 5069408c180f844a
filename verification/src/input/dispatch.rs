//! How a mouse event finds its way to the items of a window.
//!
//! The items themselves are asked by the caller, one after the other. What
//! is decided between two questions is decided here: which item is asked
//! next, with which event, and what its answer means for the items that
//! follow.

use super::{InputEventFilterResult, InputEventResult, MouseEvent};
use crate::graphics::{Point, Rect, Vector2D};
use vstd::prelude::*;

verus! {

/// The state which a window holds for the mouse input.
pub struct MouseInputState<I> {
    /// The stack of items which contain the mouse cursor (or grab), outermost
    /// first, along with the last answer of each to the filter.
    pub item_stack: Vec<(I, InputEventFilterResult)>,
    /// True if the top item of the stack has the mouse grab.
    pub grabbed: bool,
}

impl<I> Default for MouseInputState<I> {
    fn default() -> (state: Self)
        ensures
            state.item_stack@ == Seq::<(I, InputEventFilterResult)>::empty(),
            !state.grabbed,
    {
        MouseInputState { item_stack: Vec::new(), grabbed: false }
    }
}

impl<I> MouseInputState<I> {
    /// Whether an item has the grab, so that the event goes down the stack to
    /// it and nowhere else.
    pub fn has_grab(&self) -> (grab: bool)
        ensures
            grab == (self.grabbed && self.item_stack@.len() > 0),
    {
        self.grabbed && self.item_stack.len() > 0
    }

    /// Takes note of what the item that has the grab answered to the event.
    /// Returns whether the grab has ended: the caller then tells the items of
    /// the stack that the mouse has left them.
    pub fn grabber_answered(&mut self, answer: InputEventResult) -> (released: bool)
        ensures
            released == (answer != InputEventResult::GrabMouse),
            final(self).item_stack == old(self).item_stack,
            final(self).grabbed == (old(self).grabbed && !released),
    {
        match answer {
            InputEventResult::GrabMouse => false,
            _ => {
                self.grabbed = false;
                true
            },
        }
    }

    /// Takes note of what an item answered to an event that was delivered to
    /// it after its children: `stack` is the stack of items down to it. An
    /// item that accepts the event ends the visit, and so does one that grabs
    /// the mouse; of several items that accept, the first counts, which lies
    /// deepest. Returns whether the visit has ended.
    pub fn delivered(
        &mut self,
        stack: Vec<(I, InputEventFilterResult)>,
        answer: InputEventResult,
    ) -> (ended: bool)
        requires
            stack@.len() > 0,
        ensures
            ended == (answer != InputEventResult::EventIgnored),
            match answer {
                InputEventResult::EventAccepted => if old(self).item_stack@.len() == 0 {
                    final(self).item_stack@ == stack@ && !final(self).grabbed
                } else {
                    *final(self) == *old(self)
                },
                InputEventResult::EventIgnored => *final(self) == *old(self),
                InputEventResult::GrabMouse => {
                    &&& final(self).grabbed
                    &&& final(self).item_stack@ == stack@.update(
                        stack@.len() - 1,
                        (stack@.last().0, InputEventFilterResult::ForwardAndInterceptGrab),
                    )
                },
            },
    {
        match answer {
            InputEventResult::EventAccepted => {
                if self.item_stack.len() == 0 {
                    self.item_stack = stack;
                    self.grabbed = false;
                }
                true
            },
            InputEventResult::EventIgnored => false,
            InputEventResult::GrabMouse => {
                self.item_stack = stack;
                let last = self.item_stack.len() - 1;
                self.item_stack[last].1 = InputEventFilterResult::ForwardAndInterceptGrab;
                self.grabbed = true;
                true
            },
        }
    }
}

/// What happens to an entry of the stack while an event goes down to the item
/// that has the grab.
#[derive(Debug, Clone, Copy, PartialEq, Eq, Structural)]
pub enum GrabStep {
    /// The entry leaves the stack, and nothing is sent to its item.
    Forget,
    /// The entry leaves the stack, and its item is told that the mouse has
    /// left it.
    Exit,
    /// The entry stays: the event passes on through its item.
    Enter,
}

/// The way of an event down the stack to the item that has the grab.
#[derive(Debug, Clone, Copy, PartialEq, Eq, Structural)]
pub struct GrabWalk {
    /// The event, as the item sees it that was entered last.
    pub event: MouseEvent,
    /// An item on the way has intercepted the event: the items below lose
    /// the grab.
    pub intercept: bool,
    /// An item on the way is gone: the stack is cut off there, and the event
    /// is handled as without a grab.
    pub invalid: bool,
}

impl GrabWalk {
    /// The walk of `event` before the first item.
    pub fn new(event: MouseEvent) -> (walk: GrabWalk)
        ensures
            walk == (GrabWalk { event, intercept: false, invalid: false }),
    {
        GrabWalk { event, intercept: false, invalid: false }
    }

    /// Meets the next entry of the stack, whose item is `alive` or gone.
    pub fn meet(&mut self, alive: bool) -> (step: GrabStep)
        ensures
            step == (if old(self).invalid || !alive {
                GrabStep::Forget
            } else if old(self).intercept {
                GrabStep::Exit
            } else {
                GrabStep::Enter
            }),
            *final(self) == (GrabWalk {
                invalid: old(self).invalid || !alive,
                ..*old(self)
            }),
    {
        if self.invalid {
            GrabStep::Forget
        } else if !alive {
            self.invalid = true;
            GrabStep::Forget
        } else if self.intercept {
            GrabStep::Exit
        } else {
            GrabStep::Enter
        }
    }

    /// Enters an item whose geometry begins at `origin` and which gave
    /// `filter` as its last answer. Returns whether the item is asked again,
    /// with the event of the walk: an item that has asked to intercept the
    /// grab is.
    pub fn enter(&mut self, filter: InputEventFilterResult, origin: Point) -> (ask: bool)
        requires
            old(self).event.can_be_relative_to(origin),
        ensures
            ask == (filter == InputEventFilterResult::ForwardAndInterceptGrab),
            final(self).intercept == old(self).intercept,
            final(self).invalid == old(self).invalid,
            final(self).event == (match old(self).event.spec_position() {
                Some(p) => old(self).event.at(
                    Point { x: (p.x - origin.x) as i32, y: (p.y - origin.y) as i32 },
                ),
                None => old(self).event,
            }),
    {
        self.event = self.event.relative_to(origin);
        match filter {
            InputEventFilterResult::ForwardAndInterceptGrab => true,
            _ => false,
        }
    }

    /// Takes note of what an item that was asked again has answered.
    pub fn filtered(&mut self, answer: InputEventFilterResult)
        ensures
            *final(self) == (GrabWalk {
                intercept: old(self).intercept || answer == InputEventFilterResult::Intercept,
                ..*old(self)
            }),
    {
        match answer {
            InputEventFilterResult::Intercept => {
                self.intercept = true;
            },
            _ => {},
        }
    }
}

/// Decides whether an item at `geometry` is told that the mouse has left it,
/// when the mouse is at `position` as the parent of the item sees it, or
/// nowhere: it is unless the mouse is in it. `position` becomes the position
/// as the item sees it.
pub fn leaves(position: &mut Option<Point>, geometry: Rect) -> (exit: bool)
    requires
        *old(position) matches Some(p) ==> p.can_be_relative_to(geometry.origin),
    ensures
        exit == !(*old(position) matches Some(p) && geometry.spec_contains(p)),
        *final(position) == (match *old(position) {
            Some(p) => Some(
                Point {
                    x: (p.x - geometry.origin.x) as i32,
                    y: (p.y - geometry.origin.y) as i32,
                },
            ),
            None => None,
        }),
{
    match *position {
        Some(p) => {
            let contains = geometry.contains(p);
            *position = Some(p.relative_to(geometry.origin));
            !contains
        },
        None => true,
    }
}

/// Whether an event is offered to an item at `geometry`, told in the
/// coordinates of the event: it is if it lies in the item, or if the item
/// clips its children, which is then to see every event.
pub fn is_offered(event: &MouseEvent, geometry: &Rect, clipping: bool) -> (offered: bool)
    ensures
        offered == (clipping || (event.spec_position() matches Some(p) && geometry.spec_contains(
            p,
        ))),
{
    match event.position() {
        Some(p) => geometry.contains(p) || clipping,
        None => clipping,
    }
}

/// What the answer of an item to the filter means for the visit of the item
/// and of its children.
#[derive(Debug, Clone, Copy, PartialEq, Eq, Structural)]
pub struct Filtered {
    /// The event is delivered to the item once its children were visited.
    pub deliver: bool,
    /// The event is delivered to the item even where a child has ended the
    /// visit.
    pub intercept: bool,
    /// The children are not visited.
    pub skip_children: bool,
    /// The event that the children are offered, in the coordinates of the
    /// window.
    pub event: MouseEvent,
}

/// Decides how the visit goes on after an item whose geometry begins at
/// `origin`, in the coordinates of the window, gave `answer` to the filter.
/// `event` is what was offered to the item, in the coordinates of the window.
pub fn filter_answered(answer: InputEventFilterResult, event: MouseEvent, origin: Point) -> (next:
    Filtered)
    requires
        answer matches InputEventFilterResult::InterceptAndDispatch(dispatched)
            ==> dispatched.spec_position() matches Some(p) ==> p.can_translate(
            Vector2D { x: origin.x, y: origin.y },
        ),
    ensures
        next == (match answer {
            InputEventFilterResult::ForwardAndIgnore => Filtered {
                deliver: false,
                intercept: false,
                skip_children: false,
                event,
            },
            InputEventFilterResult::ForwardEvent
            | InputEventFilterResult::ForwardAndInterceptGrab => Filtered {
                deliver: true,
                intercept: false,
                skip_children: false,
                event,
            },
            InputEventFilterResult::InterceptAndDispatch(dispatched) => Filtered {
                deliver: true,
                intercept: true,
                skip_children: false,
                event: match dispatched.spec_position() {
                    Some(p) => dispatched.at(
                        p.translated(Vector2D { x: origin.x, y: origin.y }),
                    ),
                    None => dispatched,
                },
            },
            InputEventFilterResult::Intercept => Filtered {
                deliver: true,
                intercept: true,
                skip_children: true,
                event,
            },
        }),
{
    match answer {
        InputEventFilterResult::ForwardAndIgnore => Filtered {
            deliver: false,
            intercept: false,
            skip_children: false,
            event,
        },
        InputEventFilterResult::ForwardEvent => Filtered {
            deliver: true,
            intercept: false,
            skip_children: false,
            event,
        },
        InputEventFilterResult::ForwardAndInterceptGrab => Filtered {
            deliver: true,
            intercept: false,
            skip_children: false,
            event,
        },
        InputEventFilterResult::InterceptAndDispatch(dispatched) => {
            let mut next_event = dispatched;
            next_event.translate(Vector2D { x: origin.x, y: origin.y });
            Filtered { deliver: true, intercept: true, skip_children: false, event: next_event }
        },
        InputEventFilterResult::Intercept => Filtered {
            deliver: true,
            intercept: true,
            skip_children: true,
            event,
        },
    }
}

} // verus!
