//! The logic of the builtin items that does not depend on how they are drawn.

pub mod text;
