//! The guest-side debugger state machines of the JavaScript runtime.

pub mod guest;
pub mod main;
