//! Decoded terminal input events.
//!
//! Terminal I/O and raw event capture live outside this crate; the core
//! consumes a stream of already decoded key, mouse, resize, paste and
//! focus events, one at a time.

use vstd::prelude::*;

verus! {

/// A key on the keyboard, as far as the core tells them apart.
#[derive(Clone, Copy, Debug, PartialEq, Eq, Structural)]
pub enum KeyCode {
    Up,
    Down,
    Left,
    Right,
    Home,
    End,
    Esc,
    Enter,
    Backspace,
    Char(char),
}

/// Whether a key was pressed, repeated or released.
#[derive(Clone, Copy, Debug, PartialEq, Eq, Structural)]
pub enum KeyEventKind {
    Press,
    Repeat,
    Release,
}

/// One decoded key event.
#[derive(Clone, Copy, Debug, PartialEq, Eq, Structural)]
pub struct KeyEvent {
    pub kind: KeyEventKind,
    pub code: KeyCode,
}

/// One decoded input event.
#[derive(Clone, Debug, PartialEq, Eq)]
pub enum InputEvent {
    FocusGained,
    FocusLost,
    Key(KeyEvent),
    Mouse,
    Paste(String),
    Resize(u16, u16),
}

} // verus!
