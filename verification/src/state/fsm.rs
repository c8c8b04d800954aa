//! The editor's stateful modes.

pub mod command_line_message;

use vstd::prelude::*;

verus! {

/// The normal (navigation) mode.
#[derive(Clone, Copy, Debug, Default, PartialEq, Eq, Structural)]
pub struct NormalStateful {}

impl NormalStateful {
    /// The normal mode value.
    pub fn new() -> (r: NormalStateful)
        ensures
            r == (NormalStateful {  }),
    {
        NormalStateful {  }
    }
}

/// The current mode of the editor: exactly one is current, and every
/// transition replaces the value wholesale.
#[derive(Clone, Copy, Debug, PartialEq, Eq, Structural)]
pub enum StatefulValue {
    NormalMode(NormalStateful),
    CommandLineMessageMode(crate::state::fsm::command_line_message::CommandLineMessageStateful),
}

} // verus!
