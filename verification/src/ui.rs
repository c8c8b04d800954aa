//! The user-interface subsystems: canvas, widget tree, viewport.

pub mod canvas;
pub mod tree;
pub mod viewport;
pub mod widget;
