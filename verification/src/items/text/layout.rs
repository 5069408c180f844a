//! How much room a text asks for, and which font.
//!
//! The renderer measures the text. What it is asked to measure, and what is
//! made of its answer, is decided here.

use crate::graphics::{Coord, Point};
use crate::input::TextCursorDirection;
use vstd::prelude::*;

verus! {

/// The direction of a layout.
#[derive(Debug, Clone, Copy, PartialEq, Eq, Structural)]
pub enum Orientation {
    Horizontal,
    Vertical,
}

/// Whether a text that is too wide goes on in the next line.
#[derive(Debug, Clone, Copy, PartialEq, Eq, Structural)]
pub enum TextWrap {
    NoWrap,
    WordWrap,
}

/// What becomes of a text that is too wide.
#[derive(Debug, Clone, Copy, PartialEq, Eq, Structural)]
pub enum TextOverflow {
    /// It is cut off.
    Clip,
    /// It ends in an ellipsis.
    Elide,
}

/// The room that a text takes, as the renderer measures it.
#[derive(Debug, Clone, Copy, PartialEq, Eq, Structural)]
pub struct TextSize {
    pub width: Coord,
    pub height: Coord,
}

/// How much room an item asks for in one direction. Whatever else a layout
/// may ask of an item is left at its default.
#[derive(Debug, Clone, Copy, PartialEq, Eq, Structural)]
pub struct LayoutInfo {
    /// The least that the item needs.
    pub min: Coord,
    /// What the item would take if it could.
    pub preferred: Coord,
}

/// The font that a text asks for. What is left open is for the renderer to
/// choose.
#[derive(Debug, Clone, PartialEq, Eq)]
pub struct FontRequest {
    pub family: Option<String>,
    pub weight: Option<i32>,
    pub pixel_size: Option<Coord>,
    pub letter_spacing: Option<Coord>,
}

/// The font that the window sets for the items that set none.
#[derive(Debug, Clone, PartialEq, Eq)]
pub struct WindowFont {
    pub family: Option<String>,
    pub weight: Option<i32>,
    pub size: Option<Coord>,
}

/// The font of an item: what the item sets, and for the rest what the window
/// sets, if there is a window. An empty family, a weight of zero and a size
/// of zero stand for what was not set.
pub fn font_request(
    family: String,
    weight: i32,
    font_size: Coord,
    letter_spacing: Coord,
    window_item: Option<WindowFont>,
) -> (request: FontRequest)
    ensures
        request.family == (if family@.len() > 0 {
            Some(family)
        } else {
            match window_item {
                Some(window) => window.family,
                None => None,
            }
        }),
        request.weight == (if weight != 0 {
            Some(weight)
        } else {
            match window_item {
                Some(window) => window.weight,
                None => None,
            }
        }),
        request.pixel_size == (if font_size != 0 {
            Some(font_size)
        } else {
            match window_item {
                Some(window) => window.size,
                None => None,
            }
        }),
        request.letter_spacing == Some(letter_spacing),
{
    let (window_family, window_weight, window_size) = match window_item {
        Some(window) => (window.family, window.weight, window.size),
        None => (None, None, None),
    };
    FontRequest {
        family: if !family.as_str().is_empty() {
            Some(family)
        } else {
            window_family
        },
        weight: if weight == 0 {
            window_weight
        } else {
            Some(weight)
        },
        pixel_size: if font_size == 0 {
            window_size
        } else {
            Some(font_size)
        },
        letter_spacing: Some(letter_spacing),
    }
}

/// The width that the renderer is to keep the text within when it measures
/// it for a layout in `orientation`, if any: the height of a text that wraps
/// depends on the `width` that it is given.
pub fn width_to_measure_within(orientation: Orientation, wrap: TextWrap, width: Coord) -> (within:
    Option<Coord>)
    ensures
        within == (if orientation == Orientation::Vertical && wrap == TextWrap::WordWrap {
            Some(width)
        } else {
            None
        }),
{
    match (orientation, wrap) {
        (Orientation::Vertical, TextWrap::WordWrap) => Some(width),
        _ => None,
    }
}

/// How much room a text asks for in `orientation`, where the renderer has
/// measured it as `implicit_size`, and an ellipsis as `ellipsis_width` wide.
///
/// A text that wraps or ends in an ellipsis can be narrower than it is long.
pub fn text_layout_info(
    orientation: Orientation,
    wrap: TextWrap,
    overflow: TextOverflow,
    implicit_size: TextSize,
    ellipsis_width: Coord,
) -> (info: LayoutInfo)
    ensures
        info == (match orientation {
            Orientation::Horizontal => LayoutInfo {
                min: match overflow {
                    TextOverflow::Elide => if implicit_size.width <= ellipsis_width {
                        implicit_size.width
                    } else {
                        ellipsis_width
                    },
                    TextOverflow::Clip => match wrap {
                        TextWrap::NoWrap => implicit_size.width,
                        TextWrap::WordWrap => 0,
                    },
                },
                preferred: implicit_size.width,
            },
            Orientation::Vertical => LayoutInfo {
                min: implicit_size.height,
                preferred: implicit_size.height,
            },
        }),
{
    match orientation {
        Orientation::Horizontal => {
            let min = match overflow {
                TextOverflow::Elide => if implicit_size.width <= ellipsis_width {
                    implicit_size.width
                } else {
                    ellipsis_width
                },
                TextOverflow::Clip => match wrap {
                    TextWrap::NoWrap => implicit_size.width,
                    TextWrap::WordWrap => 0,
                },
            };
            LayoutInfo { min, preferred: implicit_size.width }
        },
        Orientation::Vertical => LayoutInfo {
            min: implicit_size.height,
            preferred: implicit_size.height,
        },
    }
}

/// The text that is measured for a text input: an empty text input takes the
/// room of one character.
pub fn text_to_measure<'a>(text: &'a str) -> (measured: &'a str)
    ensures
        measured@ == (if text@.len() == 0 {
            "*"@
        } else {
            text@
        }),
{
    if text.is_empty() {
        "*"
    } else {
        text
    }
}

/// How much room a text input asks for in `orientation`, where the renderer
/// has measured its text as `implicit_size`.
pub fn text_input_layout_info(orientation: Orientation, wrap: TextWrap, implicit_size: TextSize) -> (info:
    LayoutInfo)
    ensures
        info == (match orientation {
            Orientation::Horizontal => LayoutInfo {
                min: match wrap {
                    TextWrap::NoWrap => implicit_size.width,
                    TextWrap::WordWrap => 0,
                },
                preferred: implicit_size.width,
            },
            Orientation::Vertical => LayoutInfo {
                min: implicit_size.height,
                preferred: implicit_size.height,
            },
        }),
{
    text_layout_info(orientation, wrap, TextOverflow::Clip, implicit_size, 0)
}

/// Whether the point `center` can be moved up and down by `font_height`
/// without leaving the range of the coordinates.
pub open spec fn can_probe(center: Point, font_height: Coord) -> bool {
    &&& Coord::MIN <= center.y + font_height <= Coord::MAX
    &&& Coord::MIN <= center.y - font_height <= Coord::MAX
}

/// The position at which the renderer is asked for the byte offset where a
/// move of the cursor by lines ends: a line up or down at the column that
/// the cursor wants to be in, or at an end of its line. `center` is the
/// centre of the cursor, `font_height` the height of a line, and
/// `preferred_x_pos` the column. `None` for a move that does not go by
/// lines.
pub fn line_probe(
    direction: TextCursorDirection,
    center: Point,
    font_height: Coord,
    preferred_x_pos: Coord,
) -> (probe: Option<Point>)
    requires
        can_probe(center, font_height),
    ensures
        probe == (match direction {
            TextCursorDirection::NextLine => Some(
                Point { x: preferred_x_pos, y: (center.y + font_height) as Coord },
            ),
            TextCursorDirection::PreviousLine => Some(
                Point { x: preferred_x_pos, y: (center.y - font_height) as Coord },
            ),
            TextCursorDirection::StartOfLine => Some(Point { x: 0, y: center.y }),
            TextCursorDirection::EndOfLine => Some(Point { x: Coord::MAX, y: center.y }),
            _ => None,
        }),
{
    match direction {
        TextCursorDirection::NextLine => Some(
            Point { x: preferred_x_pos, y: center.y + font_height },
        ),
        TextCursorDirection::PreviousLine => Some(
            Point { x: preferred_x_pos, y: center.y - font_height },
        ),
        TextCursorDirection::StartOfLine => Some(Point { x: 0, y: center.y }),
        TextCursorDirection::EndOfLine => Some(Point { x: Coord::MAX, y: center.y }),
        _ => None,
    }
}

/// Whether a move of the cursor in `direction` leaves the column that the
/// cursor wants to be in as it is: a move up or down does, so that the
/// cursor comes back to its column after a shorter line.
pub fn keeps_preferred_x_pos(direction: TextCursorDirection) -> (keeps: bool)
    ensures
        keeps == (direction is NextLine || direction is PreviousLine),
{
    match direction {
        TextCursorDirection::NextLine | TextCursorDirection::PreviousLine => true,
        _ => false,
    }
}

} // verus!
