//! Verified debugger logic for the hyperlight JavaScript runtime and its
//! Debug Adapter Protocol (DAP) host side.

pub mod debug;
pub mod runtime;
pub mod shared;
pub mod text;
