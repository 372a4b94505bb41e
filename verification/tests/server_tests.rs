use hyperlight_js_dap::debug::errors::DapError;
use hyperlight_js_dap::debug::messages::{
    DapRequest, DapResponse, Scope, SourceLocation, StackFrame, StopReason, Variable,
};
use hyperlight_js_dap::debug::protocol::{
    DisconnectArguments, EvaluateArguments, FunctionBreakpoint, ScopesArguments,
    SetBreakpointsArguments, SetFunctionBreakpointsArguments, Source, SourceBreakpoint,
    StackTraceArguments, VariablesArguments,
};
use hyperlight_js_dap::debug::server::{
    capabilities, classify_command, continue_body, disconnect_request, forwarded_request, evaluate_body, evaluate_request, frame_message,
    scopes_body, scopes_request, set_breakpoints_plan, set_function_breakpoints_plan,
    stack_trace_body, stack_trace_request, threads_body, variables_body, variables_request, DapCommand,
    DapServer, VmEvent, MAIN_THREAD_ID,
};

#[test]
fn test_parse_content_length() {
    assert_eq!(
        DapServer::parse_content_length("Content-Length: 123").unwrap(),
        123
    );
    assert_eq!(
        DapServer::parse_content_length("content-length: 456").unwrap(),
        456
    );
    assert_eq!(
        DapServer::parse_content_length("Content-Length:789").unwrap(),
        789
    );

    assert!(DapServer::parse_content_length("").is_err());
    assert!(DapServer::parse_content_length("Invalid").is_err());
    assert!(DapServer::parse_content_length("Content-Length: abc").is_err());
}

#[test]
fn test_parse_content_length_edge_cases() {
    assert_eq!(DapServer::parse_content_length("  CONTENT-LENGTH : 42 \r\n").unwrap(), 42);
    assert_eq!(DapServer::parse_content_length("Content-Length: +7").unwrap(), 7);
    assert_eq!(DapServer::parse_content_length("Content-Length: 0").unwrap(), 0);
    assert!(DapServer::parse_content_length("Content-Length:").is_err());
    assert!(DapServer::parse_content_length("Content-Length: -1").is_err());
    assert!(DapServer::parse_content_length("Content-Length: 1 2").is_err());
    assert!(DapServer::parse_content_length("Content-Length: 99999999999999999999999").is_err());
    assert!(DapServer::parse_content_length("Content-Type: 12").is_err());
    assert!(DapServer::parse_content_length("   ").is_err());
}

#[test]
fn test_parse_content_length_error_messages() {
    let message = |h: &str| match DapServer::parse_content_length(h) {
        Err(DapError::ParseError(m)) => m,
        other => panic!("expected a parse error, got {:?}", other),
    };
    assert_eq!(message(""), "Empty header");
    assert_eq!(message(" Invalid "), "Invalid header format: Invalid");
    assert_eq!(message("Content-Type: 12"), "Expected Content-Length header, got: Content-Type");
    assert_eq!(message("Content-Length: abc"), "Invalid Content-Length value:  abc");
}

#[test]
fn test_frame_message_round_trip() {
    let json = r#"{"seq":1,"type":"event","event":"initialized"}"#;
    let framed = frame_message(json);
    assert_eq!(framed, format!("Content-Length: {}\r\n\r\n{}", json.len(), json));
    let header = framed.split("\r\n").next().unwrap();
    assert_eq!(DapServer::parse_content_length(header).unwrap(), json.len());
    // The length counts bytes, not characters.
    assert_eq!(frame_message("\"é\""), "Content-Length: 4\r\n\r\n\"é\"");
}

#[test]
fn test_sequence_numbers_and_flags() {
    let mut server = DapServer::new();
    assert!(!server.is_initialized());
    assert!(!server.is_running());
    assert!(!server.is_shutdown());
    assert_eq!(server.next_seq(), 1);
    assert_eq!(server.next_seq(), 2);
    assert_eq!(server.next_seq(), 3);
    assert!(server.check_initialize().is_ok());
    server.record_forwarded(DapCommand::Initialize);
    assert!(server.is_initialized());
    assert!(!server.is_running());
    assert_eq!(server.check_initialize().unwrap_err(), "Already initialized");
    server.record_forwarded(DapCommand::Pause);
    assert!(!server.is_running());
    server.record_forwarded(DapCommand::ConfigurationDone);
    assert!(server.is_running());
    server.record_forwarded(DapCommand::Disconnect);
    assert!(server.is_shutdown());
    assert_eq!(server.next_seq(), 4);

    let mut other = DapServer::new();
    other.shut_down();
    assert!(other.is_shutdown());
    assert!(!other.is_initialized());
}

#[test]
fn test_capabilities() {
    let caps = capabilities();
    assert!(caps.supports_configuration_done_request);
    assert!(caps.supports_function_breakpoints);
    assert!(caps.supports_evaluate_for_hovers);
    assert!(caps.support_terminate_debuggee);
    assert!(!caps.supports_conditional_breakpoints);
    assert!(!caps.supports_set_variable);
    assert!(!caps.supports_step_back);
    assert!(!caps.supports_log_points);
    assert!(!caps.supports_delayed_stack_trace_loading);
    assert!(!caps.supports_terminate_request);
}

#[test]
fn test_forwarded_commands() {
    assert!(matches!(forwarded_request(DapCommand::Initialize), Some(DapRequest::Initialize)));
    assert!(matches!(
        forwarded_request(DapCommand::ConfigurationDone),
        Some(DapRequest::ConfigurationDone)
    ));
    assert!(matches!(forwarded_request(DapCommand::Continue), Some(DapRequest::Continue)));
    assert!(matches!(forwarded_request(DapCommand::Next), Some(DapRequest::Next)));
    assert!(matches!(forwarded_request(DapCommand::StepIn), Some(DapRequest::StepIn)));
    assert!(matches!(forwarded_request(DapCommand::StepOut), Some(DapRequest::StepOut)));
    assert!(matches!(forwarded_request(DapCommand::Pause), Some(DapRequest::Pause)));
    assert!(forwarded_request(DapCommand::Threads).is_none());
    assert!(forwarded_request(DapCommand::Disconnect).is_none());
    assert!(forwarded_request(DapCommand::Unknown).is_none());

    for command in [DapCommand::Continue, DapCommand::Next, DapCommand::StepIn, DapCommand::StepOut] {
        let mut server = DapServer::new();
        server.record_forwarded(command);
        assert!(server.is_running());
        assert!(!server.is_initialized());
        assert!(!server.is_shutdown());
    }
    let mut server = DapServer::new();
    server.record_forwarded(DapCommand::Threads);
    assert!(!server.is_running() && !server.is_initialized() && !server.is_shutdown());
    assert!(continue_body().all_threads_continued);
}

#[test]
fn test_classify_command() {
    let cases = [
        ("initialize", DapCommand::Initialize),
        ("launch", DapCommand::Launch),
        ("attach", DapCommand::Attach),
        ("configurationDone", DapCommand::ConfigurationDone),
        ("setBreakpoints", DapCommand::SetBreakpoints),
        ("setFunctionBreakpoints", DapCommand::SetFunctionBreakpoints),
        ("threads", DapCommand::Threads),
        ("stackTrace", DapCommand::StackTrace),
        ("scopes", DapCommand::Scopes),
        ("variables", DapCommand::Variables),
        ("continue", DapCommand::Continue),
        ("next", DapCommand::Next),
        ("stepIn", DapCommand::StepIn),
        ("stepOut", DapCommand::StepOut),
        ("pause", DapCommand::Pause),
        ("evaluate", DapCommand::Evaluate),
        ("disconnect", DapCommand::Disconnect),
        ("Initialize", DapCommand::Unknown),
        ("restart", DapCommand::Unknown),
        ("", DapCommand::Unknown),
    ];
    for (name, expected) in cases.iter() {
        assert_eq!(classify_command(name), *expected, "command {}", name);
    }
}

fn source_breakpoint(line: i64) -> SourceBreakpoint {
    SourceBreakpoint { line, column: None, condition: None, hit_condition: None, log_message: None }
}

#[test]
fn test_set_breakpoints_plan() {
    let mut source = Source::default();
    source.path = Some("/app/main.js".to_string());
    source.name = Some("main.js".to_string());
    let args = SetBreakpointsArguments {
        source,
        breakpoints: vec![source_breakpoint(3), source_breakpoint(9)],
        lines: vec![],
        source_modified: false,
    };
    let (request, body) = set_breakpoints_plan(&args);
    match request {
        DapRequest::SetBreakpoints { source_path, lines } => {
            assert_eq!(source_path, "/app/main.js");
            assert_eq!(lines, vec![3, 9]);
        }
        other => panic!("unexpected request {:?}", other),
    }
    assert_eq!(body.breakpoints.len(), 2);
    assert_eq!(body.breakpoints[0].id, Some(1));
    assert_eq!(body.breakpoints[1].id, Some(2));
    assert!(body.breakpoints[1].verified);
    assert_eq!(body.breakpoints[1].line, Some(9));
    assert_eq!(body.breakpoints[1].column, None);
    let src = body.breakpoints[1].source.as_ref().unwrap();
    assert_eq!(src.path.as_deref(), Some("/app/main.js"));
    assert!(src.name.is_none());

    // Without a path the name is used; without either, the empty path.
    let mut named = Source::default();
    named.name = Some("main.js".to_string());
    let args = SetBreakpointsArguments { source: named, breakpoints: vec![], lines: vec![], source_modified: false };
    match set_breakpoints_plan(&args).0 {
        DapRequest::SetBreakpoints { source_path, lines } => {
            assert_eq!(source_path, "main.js");
            assert!(lines.is_empty());
        }
        other => panic!("unexpected request {:?}", other),
    }
    let args = SetBreakpointsArguments {
        source: Source::default(),
        breakpoints: vec![source_breakpoint(1)],
        lines: vec![],
        source_modified: false,
    };
    match set_breakpoints_plan(&args).0 {
        DapRequest::SetBreakpoints { source_path, .. } => assert_eq!(source_path, ""),
        other => panic!("unexpected request {:?}", other),
    }
}

#[test]
fn test_set_function_breakpoints_plan() {
    let args = SetFunctionBreakpointsArguments {
        breakpoints: vec![
            FunctionBreakpoint { name: "f".to_string(), condition: None, hit_condition: None },
            FunctionBreakpoint { name: "g".to_string(), condition: None, hit_condition: None },
        ],
    };
    let (request, body) = set_function_breakpoints_plan(&args);
    match request {
        DapRequest::SetFunctionBreakpoints { names } => assert_eq!(names, vec!["f", "g"]),
        other => panic!("unexpected request {:?}", other),
    }
    assert_eq!(body.breakpoints[0].id, Some(1000));
    assert_eq!(body.breakpoints[1].id, Some(1001));
    assert!(body.breakpoints[1].verified);
    assert!(body.breakpoints[1].source.is_none());
    assert!(body.breakpoints[1].line.is_none());
}

#[test]
fn test_forwarded_requests() {
    let args = StackTraceArguments { thread_id: 1, start_frame: Some(2), levels: None };
    match stack_trace_request(&args) {
        DapRequest::StackTrace { start_frame, levels } => {
            assert_eq!(start_frame, Some(2));
            assert_eq!(levels, None);
        }
        other => panic!("unexpected request {:?}", other),
    }
    match scopes_request(&ScopesArguments { frame_id: 3 }) {
        DapRequest::Scopes { frame_id } => assert_eq!(frame_id, 3),
        other => panic!("unexpected request {:?}", other),
    }
    let vars = VariablesArguments { variables_reference: 1002, filter: None, start: None, count: None };
    match variables_request(&vars) {
        DapRequest::Variables { variables_reference } => assert_eq!(variables_reference, 1002),
        other => panic!("unexpected request {:?}", other),
    }
    let eval = EvaluateArguments { expression: "a".to_string(), frame_id: Some(0), context: Some("hover".to_string()) };
    match evaluate_request(eval) {
        DapRequest::Evaluate { expression, frame_id, context } => {
            assert_eq!(expression, "a");
            assert_eq!(frame_id, Some(0));
            assert_eq!(context.as_deref(), Some("hover"));
        }
        other => panic!("unexpected request {:?}", other),
    }
    let disc = DisconnectArguments { restart: false, terminate_debuggee: true, suspend_debuggee: false };
    match disconnect_request(&disc) {
        DapRequest::Disconnect { terminate } => assert!(terminate),
        other => panic!("unexpected request {:?}", other),
    }
}

#[test]
fn test_response_bodies() {
    let frames = vec![StackFrame {
        id: 0,
        name: "main".to_string(),
        location: SourceLocation::new("app.js".to_string(), 5),
    }];
    let body = stack_trace_body(Ok(DapResponse::StackTrace { frames, total_frames: 1 })).unwrap();
    assert_eq!(body.total_frames, Some(1));
    assert_eq!(body.stack_frames[0].name, "main");
    assert_eq!(body.stack_frames[0].line, 5);
    assert_eq!(body.stack_frames[0].column, 1);
    assert_eq!(
        body.stack_frames[0].source.as_ref().unwrap().path.as_deref(),
        Some("app.js")
    );

    let err = stack_trace_body(Ok(DapResponse::Error { message: "boom".to_string() }));
    assert_eq!(err.unwrap_err(), "boom");
    let unexpected = stack_trace_body(Ok(DapResponse::Continued));
    assert_eq!(unexpected.unwrap_err(), "Unexpected response from VM");
    assert_eq!(
        stack_trace_body(Err(DapError::ChannelRecvError)).unwrap_err(),
        "Unexpected response from VM"
    );

    let scopes = scopes_body(Ok(DapResponse::Scopes {
        scopes: vec![Scope { name: "Locals".to_string(), variables_reference: 1000, expensive: false }],
    }))
    .unwrap();
    assert_eq!(scopes.scopes[0].name, "Locals");
    assert_eq!(scopes.scopes[0].variables_reference, 1000);
    assert_eq!(scopes_body(Ok(DapResponse::Paused)).unwrap_err(), "Unexpected response from VM");

    let vars = variables_body(Ok(DapResponse::Variables {
        variables: vec![Variable {
            name: "x".to_string(),
            value: "1".to_string(),
            value_type: None,
            variables_reference: 0,
        }],
    }))
    .unwrap();
    assert_eq!(vars.variables[0].name, "x");
    assert_eq!(vars.variables[0].value, "1");
    assert!(vars.variables[0].value_type.is_none());
    assert_eq!(
        variables_body(Ok(DapResponse::Error { message: "no".to_string() })).unwrap_err(),
        "no"
    );

    let eval = evaluate_body(Ok(DapResponse::Evaluate {
        result: "42".to_string(),
        value_type: Some("number".to_string()),
        variables_reference: 0,
    }))
    .unwrap();
    assert_eq!(eval.result, "42");
    assert_eq!(eval.value_type.as_deref(), Some("number"));
    assert_eq!(evaluate_body(Ok(DapResponse::Terminated)).unwrap_err(), "Unexpected response from VM");
}

#[test]
fn test_response_to_event() {
    let mut server = DapServer::new();
    server.record_forwarded(DapCommand::Continue);
    let location = SourceLocation::new("app.js".to_string(), 7).with_column(3);
    let event = server
        .response_to_event(DapResponse::Stopped {
            reason: StopReason::Breakpoint,
            location,
            hit_breakpoint_ids: Some(vec![2, 5]),
            exception_text: None,
        })
        .unwrap();
    assert!(!server.is_running());
    assert_eq!(event.name(), "stopped");
    match event {
        VmEvent::Stopped(body) => {
            assert_eq!(body.reason, "breakpoint");
            assert_eq!(body.description.as_deref(), Some("Paused at app.js:7"));
            assert_eq!(body.thread_id, Some(MAIN_THREAD_ID));
            assert!(body.all_threads_stopped);
            assert_eq!(body.hit_breakpoint_ids, Some(vec![2i64, 5]));
            assert!(body.text.is_none());
        }
        other => panic!("unexpected event {:?}", other),
    }

    let event = server.response_to_event(DapResponse::Continued).unwrap();
    assert!(server.is_running());
    assert_eq!(event.name(), "continued");
    match event {
        VmEvent::Continued(body) => {
            assert_eq!(body.thread_id, 1);
            assert!(body.all_threads_continued);
        }
        other => panic!("unexpected event {:?}", other),
    }

    let event = server
        .response_to_event(DapResponse::Output {
            category: "stdout".to_string(),
            output: "hello\n".to_string(),
            location: Some(SourceLocation::new("app.js".to_string(), 2)),
        })
        .unwrap();
    assert_eq!(event.name(), "output");
    match event {
        VmEvent::Output(body) => {
            assert_eq!(body.category.as_deref(), Some("stdout"));
            assert_eq!(body.output, "hello\n");
            assert_eq!(body.line, Some(2));
            assert_eq!(body.column, None);
            assert_eq!(body.source.unwrap().path.as_deref(), Some("app.js"));
        }
        other => panic!("unexpected event {:?}", other),
    }

    let event = server.response_to_event(DapResponse::Terminated).unwrap();
    assert_eq!(event.name(), "terminated");
    let event = server.response_to_event(DapResponse::Exited { exit_code: -2 }).unwrap();
    assert_eq!(event.name(), "exited");
    match event {
        VmEvent::Exited(body) => assert_eq!(body.exit_code, -2),
        other => panic!("unexpected event {:?}", other),
    }

    assert!(server.response_to_event(DapResponse::Paused).is_none());
    assert!(server.response_to_event(DapResponse::Disconnected).is_none());
    assert!(server.is_running());
}

#[test]
fn test_threads_body() {
    let body = threads_body();
    assert_eq!(body.threads.len(), 1);
    assert_eq!(body.threads[0].id, MAIN_THREAD_ID);
    assert_eq!(body.threads[0].name, "main");
}
