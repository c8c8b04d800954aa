//! The low-level editor operations.
//!
//! A closed, immutable vocabulary between terminal keyboard/mouse events
//! and editor behaviour.  Operations carry only primitive payloads —
//! counts, offsets, text — never node references.

pub mod cursor_ops;

use vstd::prelude::*;

verus! {

/// A set of low-level editor operations between terminal keyboard/mouse
/// events and editor operations.
#[derive(Clone, Debug, PartialEq, Eq)]
pub enum Operation {
    /// Move cursor by offset `(chars, lines)` relatively, based on the
    /// current cursor position: negative is left/up, positive is
    /// right/down.
    CursorMoveBy(isize, isize),
    /// Move cursor left by `n` chars relatively.
    CursorMoveLeftBy(usize),
    /// Move cursor right by `n` chars relatively.
    CursorMoveRightBy(usize),
    /// Move cursor up by `n` lines relatively.
    CursorMoveUpBy(usize),
    /// Move cursor down by `n` lines relatively.
    CursorMoveDownBy(usize),
    /// Move cursor to the absolute position `(char_idx, line_idx)`.
    CursorMoveTo(usize, usize),
    /// Scroll buffer by offset `(columns, lines)` relatively.
    WindowScrollBy(isize, isize),
    /// Scroll buffer left by `n` columns relatively.
    WindowScrollLeftBy(usize),
    /// Scroll buffer right by `n` columns relatively.
    WindowScrollRightBy(usize),
    /// Scroll buffer up by `n` lines relatively.
    WindowScrollUpBy(usize),
    /// Scroll buffer down by `n` lines relatively.
    WindowScrollDownBy(usize),
    /// Scroll window to the absolute position `(column_idx, line_idx)`.
    WindowScrollTo(usize, usize),
    /// Goto insert mode, with the chosen entering motion.
    GotoInsertMode(GotoInsertModeVariant),
    /// Goto normal mode.
    GotoNormalMode,
    /// Insert text at cursor.
    CursorInsert(String),
    /// Delete `n` chars of text: to the left of the cursor when
    /// negative, to the right when positive.
    CursorDelete(isize),
    /// Goto command-line ex mode.
    GotoCommandLineExMode,
    /// Goto command-line search forward mode.
    GotoCommandLineSearchForwardMode,
    /// Goto command-line search backward mode.
    GotoCommandLineSearchBackwardMode,
    /// Confirm ex command and goto normal mode.
    ConfirmExCommandAndGotoNormalMode,
    /// Quit editor.
    EditorQuit,
}

/// The cursor-movement subset of the vocabulary.
pub open spec fn is_cursor_move_op(op: Operation) -> bool {
    match op {
        Operation::CursorMoveBy(..) => true,
        Operation::CursorMoveLeftBy(..) => true,
        Operation::CursorMoveRightBy(..) => true,
        Operation::CursorMoveUpBy(..) => true,
        Operation::CursorMoveDownBy(..) => true,
        Operation::CursorMoveTo(..) => true,
        _ => false,
    }
}

/// A set of possible motions when entering insert mode.
#[derive(Clone, Copy, Debug, PartialEq, Eq, Structural)]
pub enum GotoInsertModeVariant {
    /// Keep cursor at its current position.
    Keep,
    /// Move cursor to the next column.
    Append,
    /// Create a new line and move cursor to the next line.
    NewLine,
}

} // verus!
