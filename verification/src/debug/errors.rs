//! Error types for the DAP module.

use vstd::prelude::*;

use crate::text::{push_i64, push_str};

verus! {

#[verifier::external_type_specification]
#[verifier::external_body]
pub struct ExIoError(std::io::Error);

#[verifier::external_type_specification]
#[verifier::external_body]
pub struct ExJsonError(serde_json::Error);

/// Errors that can occur in the DAP server.
#[derive(Debug)]
pub enum DapError {
    /// Failed to bind to the specified address/port.
    BindError(String),
    /// Failed to accept a connection.
    AcceptError(std::io::Error),
    /// Error parsing a DAP message.
    ParseError(String),
    /// Error serializing a DAP message.
    SerializeError(String),
    /// Error sending a message through the channel.
    ChannelSendError,
    /// Error receiving a message from the channel.
    ChannelRecvError,
    /// Received an unexpected message type.
    UnexpectedMessage(String),
    /// The debug session is not initialized.
    NotInitialized,
    /// The debug session has already been initialized.
    AlreadyInitialized,
    /// Invalid request sequence number.
    InvalidSequence { expected: i64, actual: i64 },
    /// Unknown command received.
    UnknownCommand(String),
    /// Invalid arguments for a command.
    InvalidArguments { command: String, reason: String },
    /// Operation not supported.
    NotSupported(String),
    /// The connection was closed.
    ConnectionClosed,
    /// Timeout waiting for a response.
    Timeout,
    /// Internal error.
    Internal(String),
}

/// The message of an error; for [`DapError::AcceptError`] only its prefix,
/// the I/O error's own text following it.
pub open spec fn error_message(e: &DapError) -> Seq<char> {
    match e {
        DapError::BindError(s) => "Failed to bind to address: "@ + s@,
        DapError::AcceptError(_) => "Failed to accept connection: "@,
        DapError::ParseError(s) => "Failed to parse DAP message: "@ + s@,
        DapError::SerializeError(s) => "Failed to serialize DAP message: "@ + s@,
        DapError::ChannelSendError => "Failed to send message through channel"@,
        DapError::ChannelRecvError => "Failed to receive message from channel"@,
        DapError::UnexpectedMessage(s) => "Received unexpected message: "@ + s@,
        DapError::NotInitialized => "Debug session not initialized"@,
        DapError::AlreadyInitialized => "Debug session already initialized"@,
        DapError::InvalidSequence { expected, actual } => "Invalid sequence number: expected "@
            + crate::text::dec_int(*expected as int) + ", got "@ + crate::text::dec_int(*actual as int),
        DapError::UnknownCommand(s) => "Unknown command: "@ + s@,
        DapError::InvalidArguments { command, reason } => "Invalid arguments for command '"@
            + command@ + "': "@ + reason@,
        DapError::NotSupported(s) => "Operation not supported: "@ + s@,
        DapError::ConnectionClosed => "Connection closed"@,
        DapError::Timeout => "Timeout waiting for response"@,
        DapError::Internal(s) => "Internal error: "@ + s@,
    }
}

/// The text of an I/O error (its `Display`); what it says depends on the
/// operating system, so nothing is stated of it.
#[verifier::external_body]
fn io_error_text(e: &std::io::Error) -> String {
    e.to_string()
}

/// The text of a JSON error (its `Display`); the error's contents are opaque
/// here, so nothing is stated of it.
#[verifier::external_body]
fn json_error_text(e: &serde_json::Error) -> String {
    e.to_string()
}

impl From<std::io::Error> for DapError {
    /// An I/O error becomes an accept error.
    fn from(err: std::io::Error) -> (r: Self) {
        DapError::AcceptError(err)
    }
}

impl vstd::std_specs::convert::FromSpecImpl<std::io::Error> for DapError {
    open spec fn obeys_from_spec() -> bool {
        true
    }

    open spec fn from_spec(err: std::io::Error) -> DapError {
        DapError::AcceptError(err)
    }
}

impl DapError {
    /// Creates a parse error with the given message.
    pub fn parse(msg: String) -> (r: Self)
        ensures
            r matches DapError::ParseError(m) && m@ == msg@,
    {
        DapError::ParseError(msg)
    }

    /// Creates a serialize error with the given message.
    pub fn serialize(msg: String) -> (r: Self)
        ensures
            r matches DapError::SerializeError(m) && m@ == msg@,
    {
        DapError::SerializeError(msg)
    }

    /// Creates an internal error with the given message.
    pub fn internal(msg: String) -> (r: Self)
        ensures
            r matches DapError::Internal(m) && m@ == msg@,
    {
        DapError::Internal(msg)
    }

    /// Creates an invalid arguments error.
    pub fn invalid_args(command: String, reason: String) -> (r: Self)
        ensures
            r matches DapError::InvalidArguments { command: c, reason: m } && c@ == command@ && m@
                == reason@,
    {
        DapError::InvalidArguments { command, reason }
    }

    /// A JSON error becomes a parse error carrying its text. The text is
    /// serde_json's `Display` of the error, which depends on the error's
    /// private contents (its code, line and column); the contract says only
    /// that the result is a parse error.
    pub fn from_json_error(err: &serde_json::Error) -> (r: Self)
        ensures
            r is ParseError,
    {
        DapError::ParseError(json_error_text(err))
    }

    /// The human-readable message of this error.
    pub fn message(&self) -> (r: String)
        ensures
            match self {
                DapError::AcceptError(_) => crate::text::seq_starts_with(r@, error_message(self)),
                _ => r@ == error_message(self),
            },
    {
        let mut s = String::new();
        match self {
            DapError::BindError(m) => {
                push_str(&mut s, "Failed to bind to address: ");
                push_str(&mut s, m.as_str());
            },
            DapError::AcceptError(e) => {
                push_str(&mut s, "Failed to accept connection: ");
                let ghost prefix = s@;
                let t = io_error_text(e);
                push_str(&mut s, t.as_str());
                assert(s@.subrange(0, prefix.len() as int) =~= prefix);
            },
            DapError::ParseError(m) => {
                push_str(&mut s, "Failed to parse DAP message: ");
                push_str(&mut s, m.as_str());
            },
            DapError::SerializeError(m) => {
                push_str(&mut s, "Failed to serialize DAP message: ");
                push_str(&mut s, m.as_str());
            },
            DapError::ChannelSendError => {
                push_str(&mut s, "Failed to send message through channel");
            },
            DapError::ChannelRecvError => {
                push_str(&mut s, "Failed to receive message from channel");
            },
            DapError::UnexpectedMessage(m) => {
                push_str(&mut s, "Received unexpected message: ");
                push_str(&mut s, m.as_str());
            },
            DapError::NotInitialized => {
                push_str(&mut s, "Debug session not initialized");
            },
            DapError::AlreadyInitialized => {
                push_str(&mut s, "Debug session already initialized");
            },
            DapError::InvalidSequence { expected, actual } => {
                push_str(&mut s, "Invalid sequence number: expected ");
                push_i64(&mut s, *expected);
                push_str(&mut s, ", got ");
                push_i64(&mut s, *actual);
            },
            DapError::UnknownCommand(m) => {
                push_str(&mut s, "Unknown command: ");
                push_str(&mut s, m.as_str());
            },
            DapError::InvalidArguments { command, reason } => {
                push_str(&mut s, "Invalid arguments for command '");
                push_str(&mut s, command.as_str());
                push_str(&mut s, "': ");
                push_str(&mut s, reason.as_str());
            },
            DapError::NotSupported(m) => {
                push_str(&mut s, "Operation not supported: ");
                push_str(&mut s, m.as_str());
            },
            DapError::ConnectionClosed => {
                push_str(&mut s, "Connection closed");
            },
            DapError::Timeout => {
                push_str(&mut s, "Timeout waiting for response");
            },
            DapError::Internal(m) => {
                push_str(&mut s, "Internal error: ");
                push_str(&mut s, m.as_str());
            },
        }
        s
    }
}

} // verus!
