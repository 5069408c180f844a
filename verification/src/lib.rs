//! Core of a declarative UI runtime.
//!
//! [`properties`] is the reactive property engine: the graph of the values
//! that depend on each other, which finds out by itself who depends on whom,
//! evaluates lazily and invalidates what a change reaches. The other modules
//! hold what the runtime builds on it and what it needs from its
//! surroundings: [`repeater`] the models and the views that repeat a
//! component for each row, [`input`] the events and how they are dispatched,
//! [`items`] the editing of text, [`graphics`] plain geometry, and
//! [`platform`] the clock and the event loop.

pub mod graphics;
pub mod input;
pub mod items;
pub mod platform;
pub mod properties;
pub mod repeater;
