//! Widgets assembled from tree nodes.

pub mod command_line;
pub mod window;
