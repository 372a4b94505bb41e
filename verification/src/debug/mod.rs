//! Debug Adapter Protocol (DAP) support on the host: message types, the wire
//! protocol, and the decisions of the DAP server and of the debug-break host
//! function.

pub mod errors;
pub mod host_funcs;
pub mod messages;
pub mod protocol;
pub mod server;
