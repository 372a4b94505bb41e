//! The debugger state machine shared with the host through the DAP types.

pub mod dap;
pub mod debugger;
