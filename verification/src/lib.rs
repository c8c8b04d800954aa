//! Core of a modal, terminal-based text editor.
//!
//! The crate owns the live representation of what is on screen: a tree of
//! identified UI widgets, the mapping from buffer text to rendered rows and
//! columns (viewport), the grid of terminal cells actually drawn (canvas),
//! and the state machine that turns input events into cursor and view
//! movement.

pub mod cli;
pub mod content;
pub mod coord;
pub mod event;
pub mod js;
pub mod state;
pub mod text;
pub mod ui;
