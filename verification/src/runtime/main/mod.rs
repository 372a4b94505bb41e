//! The self-contained QuickJS debugger with its own JSON wire format.

pub mod debugger;
