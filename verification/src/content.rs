//! The shared text-content store, seen from the editor core.
//!
//! One text region per logical buffer: the window buffer and the
//! command-line buffer.  Callers serialize access and hand the core a
//! mutable borrow for the duration of one operation.

use crate::text::Text;
use vstd::prelude::*;

verus! {

/// The text regions the editor core reads and edits.
#[derive(Clone, Debug)]
pub struct TextContents {
    /// The buffer shown by the window.
    pub window: Text,
    /// The command-line buffer.
    pub command_line: Text,
}

impl TextContents {
    /// Well-formed: every region is.
    pub open spec fn wf(self) -> bool {
        self.window.wf() && self.command_line.wf()
    }

    /// Empty regions.
    pub fn new() -> (r: TextContents)
        ensures
            r.wf(),
            r.window.lines@.len() == 1,
            r.window.lines@[0].glyphs@.len() == 0,
            r.command_line.lines@.len() == 1,
            r.command_line.lines@[0].glyphs@.len() == 0,
    {
        TextContents { window: Text::new(), command_line: Text::new() }
    }

    /// The command-line region.
    pub fn command_line_content(&self) -> (r: &Text)
        ensures
            r == self.command_line,
    {
        &self.command_line
    }
}

} // verus!
