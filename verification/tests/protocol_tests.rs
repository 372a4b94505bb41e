use hyperlight_js_dap::debug::errors::DapError;
use hyperlight_js_dap::debug::messages::{SourceLocation, StopReason};
use hyperlight_js_dap::debug::protocol::{default_true, Capabilities, Event, Response, Source};

#[test]
fn test_source_location_builders() {
    let loc = SourceLocation::new("app.js".to_string(), 10);
    assert_eq!(loc.filename, "app.js");
    assert_eq!(loc.line, 10);
    assert!(loc.function_name.is_none());
    assert!(loc.column.is_none());
    let loc = loc.with_function("main".to_string()).with_column(4);
    assert_eq!(loc.function_name.as_deref(), Some("main"));
    assert_eq!(loc.column, Some(4));
    assert_eq!(loc.line, 10);
    assert_eq!(loc.filename, "app.js");
}

#[test]
fn test_stop_reason_names() {
    assert_eq!(StopReason::Entry.as_str(), "entry");
    assert_eq!(StopReason::Breakpoint.as_str(), "breakpoint");
    assert_eq!(StopReason::Step.as_str(), "step");
    assert_eq!(StopReason::Pause.as_str(), "pause");
    assert_eq!(StopReason::Exception.as_str(), "exception");
    assert_eq!(StopReason::DataBreakpoint.as_str(), "data breakpoint");
    assert_eq!(StopReason::FunctionBreakpoint.as_str(), "function breakpoint");
}

#[test]
fn test_response_constructors() {
    let body = serde_json::Value::Bool(true);
    let ok = Response::success(5, "threads", Some(body.clone()));
    assert_eq!(ok.seq, 0);
    assert_eq!(ok.message_type, "response");
    assert_eq!(ok.request_seq, 5);
    assert!(ok.success);
    assert_eq!(ok.command, "threads");
    assert!(ok.message.is_none());
    assert_eq!(ok.body, Some(body));

    let err = Response::error(6, "launch", "bad");
    assert_eq!(err.request_seq, 6);
    assert!(!err.success);
    assert_eq!(err.command, "launch");
    assert_eq!(err.message.as_deref(), Some("bad"));
    assert!(err.body.is_none());
}

#[test]
fn test_event_constructor() {
    let ev = Event::new("initialized", None);
    assert_eq!(ev.seq, 0);
    assert_eq!(ev.message_type, "event");
    assert_eq!(ev.event, "initialized");
    assert!(ev.body.is_none());
}

#[test]
fn test_defaults() {
    assert!(default_true());
    let src = Source::default();
    assert!(src.name.is_none() && src.path.is_none() && src.source_reference.is_none());
    let caps = Capabilities::default();
    assert!(!caps.supports_configuration_done_request);
    assert!(!caps.supports_function_breakpoints);
    assert!(!caps.support_terminate_debuggee);
}

#[test]
fn test_error_constructors_and_messages() {
    match DapError::parse("p".to_string()) {
        DapError::ParseError(m) => assert_eq!(m, "p"),
        other => panic!("unexpected {:?}", other),
    }
    match DapError::serialize("s".to_string()) {
        DapError::SerializeError(m) => assert_eq!(m, "s"),
        other => panic!("unexpected {:?}", other),
    }
    match DapError::internal("i".to_string()) {
        DapError::Internal(m) => assert_eq!(m, "i"),
        other => panic!("unexpected {:?}", other),
    }
    let e = DapError::invalid_args("scopes".to_string(), "missing frameId".to_string());
    assert_eq!(e.message(), "Invalid arguments for command 'scopes': missing frameId");

    let cases: Vec<(DapError, &str)> = vec![
        (DapError::BindError("x".to_string()), "Failed to bind to address: x"),
        (DapError::ParseError("x".to_string()), "Failed to parse DAP message: x"),
        (DapError::SerializeError("x".to_string()), "Failed to serialize DAP message: x"),
        (DapError::ChannelSendError, "Failed to send message through channel"),
        (DapError::ChannelRecvError, "Failed to receive message from channel"),
        (DapError::UnexpectedMessage("x".to_string()), "Received unexpected message: x"),
        (DapError::NotInitialized, "Debug session not initialized"),
        (DapError::AlreadyInitialized, "Debug session already initialized"),
        (
            DapError::InvalidSequence { expected: 3, actual: -4 },
            "Invalid sequence number: expected 3, got -4",
        ),
        (DapError::UnknownCommand("x".to_string()), "Unknown command: x"),
        (DapError::NotSupported("x".to_string()), "Operation not supported: x"),
        (DapError::ConnectionClosed, "Connection closed"),
        (DapError::Timeout, "Timeout waiting for response"),
        (DapError::Internal("x".to_string()), "Internal error: x"),
    ];
    for (err, expected) in cases {
        assert_eq!(err.message(), expected);
    }

    let io = std::io::Error::new(std::io::ErrorKind::Other, "refused");
    assert_eq!(DapError::AcceptError(io).message(), "Failed to accept connection: refused");
}

#[test]
fn test_json_error_becomes_parse_error() {
    let json_err = serde_json::from_str::<serde_json::Value>("{").unwrap_err();
    let text = json_err.to_string();
    match DapError::from_json_error(&json_err) {
        DapError::ParseError(m) => assert_eq!(m, text),
        other => panic!("unexpected {:?}", other),
    }
}

#[test]
fn test_io_error_becomes_accept_error() {
    let io = std::io::Error::new(std::io::ErrorKind::ConnectionReset, "reset");
    match DapError::from(io) {
        DapError::AcceptError(e) => assert_eq!(e.kind(), std::io::ErrorKind::ConnectionReset),
        other => panic!("unexpected {:?}", other),
    }
}
