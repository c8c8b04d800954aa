//! The boundary to the embedded scripting engine.

pub mod err;
