//! A terminal todo-list manager: a verified todo store, the screen state
//! machine that maps key presses onto it, and the geometry of its views.

pub mod todo;
pub mod geometry;
pub mod tui;
