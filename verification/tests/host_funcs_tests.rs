use hyperlight_js_dap::debug::host_funcs::{BreakSession, BreakStep, BreakpointTable};
use hyperlight_js_dap::debug::messages::{
    DapRequest, DapResponse, SourceLocation, StackFrame, StopReason,
};
use hyperlight_js_dap::shared::{
    DebugActionType, DebugBreakEvent, DebugBreakReason, DebugLocation, DebugStackFrame,
    DebugVariable,
};

fn location(filename: &str, function: &str, line: u32, column: Option<u32>) -> DebugLocation {
    DebugLocation {
        filename: filename.to_string(),
        function_name: Some(function.to_string()),
        line,
        column,
    }
}

fn variable(name: &str, value: &str) -> DebugVariable {
    DebugVariable { name: name.to_string(), value: value.to_string(), value_type: Some("number".to_string()) }
}

fn sample_event() -> DebugBreakEvent {
    DebugBreakEvent {
        reason: DebugBreakReason::Breakpoint,
        location: location("app.js", "helper", 12, Some(3)),
        stack_frames: vec![
            DebugStackFrame {
                id: 0,
                name: "helper".to_string(),
                location: location("app.js", "helper", 12, Some(3)),
                variables: vec![variable("x", "1"), variable("y", "2")],
            },
            DebugStackFrame {
                id: 1,
                name: "main".to_string(),
                location: location("app.js", "main", 4, None),
                variables: vec![variable("z", "3")],
            },
        ],
        exception_message: None,
    }
}

fn reply(step: BreakStep) -> DapResponse {
    match step {
        BreakStep::Reply(r) => r,
        _ => panic!("expected a reply"),
    }
}

#[test]
fn test_conversions_from_shared_types() {
    assert_eq!(StopReason::from(DebugBreakReason::Entry), StopReason::Entry);
    assert_eq!(StopReason::from(DebugBreakReason::Breakpoint), StopReason::Breakpoint);
    assert_eq!(StopReason::from(DebugBreakReason::Step), StopReason::Step);
    assert_eq!(StopReason::from(DebugBreakReason::Pause), StopReason::Pause);
    assert_eq!(StopReason::from(DebugBreakReason::Exception), StopReason::Exception);

    let loc = SourceLocation::from(location("a.js", "f", 9, Some(2)));
    assert_eq!(loc.filename, "a.js");
    assert_eq!(loc.function_name.as_deref(), Some("f"));
    assert_eq!(loc.line, 9);
    assert_eq!(loc.column, Some(2));

    let frame = StackFrame::from(DebugStackFrame {
        id: 4,
        name: "f".to_string(),
        location: location("a.js", "f", 9, None),
        variables: vec![variable("v", "0")],
    });
    assert_eq!(frame.id, 4);
    assert_eq!(frame.name, "f");
    assert_eq!(frame.location.line, 9);
    assert_eq!(frame.location.column, None);
}

#[test]
fn test_open_reports_stop() {
    let (session, stopped) = BreakSession::open(sample_event(), BreakpointTable::new());
    match stopped {
        DapResponse::Stopped { reason, location, hit_breakpoint_ids, exception_text } => {
            assert_eq!(reason, StopReason::Breakpoint);
            assert_eq!(location.filename, "app.js");
            assert_eq!(location.function_name.as_deref(), Some("helper"));
            assert_eq!(location.line, 12);
            assert_eq!(location.column, Some(3));
            assert!(hit_breakpoint_ids.is_none());
            assert!(exception_text.is_none());
        }
        other => panic!("unexpected response {:?}", other),
    }
    assert!(session.collect_breakpoints().is_empty());
}

#[test]
fn test_resume_requests_finish() {
    let cases = vec![
        (DapRequest::Continue, DebugActionType::Continue),
        (DapRequest::Next, DebugActionType::StepOver),
        (DapRequest::StepIn, DebugActionType::StepInto),
        (DapRequest::StepOut, DebugActionType::StepOut),
    ];
    for (request, expected) in cases {
        let (mut session, _) = BreakSession::open(sample_event(), BreakpointTable::new());
        match session.step(request) {
            BreakStep::Finish(DapResponse::Continued, action) => {
                assert_eq!(action.action, expected);
                assert!(action.breakpoints.is_empty());
            }
            _ => panic!("expected the break to end"),
        }
    }
    let (mut session, _) = BreakSession::open(sample_event(), BreakpointTable::new());
    match session.step(DapRequest::Disconnect { terminate: true }) {
        BreakStep::Finish(DapResponse::Disconnected, action) => {
            assert_eq!(action.action, DebugActionType::Disconnect);
        }
        _ => panic!("expected the break to end"),
    }
}

#[test]
fn test_set_breakpoints_replaces_per_file() {
    let (mut session, _) = BreakSession::open(sample_event(), BreakpointTable::new());
    let step = session.step(DapRequest::SetBreakpoints { source_path: "a.js".to_string(), lines: vec![1, 2] });
    assert!(matches!(step, BreakStep::Ignore));
    session.set_breakpoints("b.js".to_string(), vec![7]);
    // Setting a.js again replaces its breakpoints, keeping b.js.
    session.set_breakpoints("a.js".to_string(), vec![5]);
    let bps = session.collect_breakpoints();
    let summary: Vec<(u32, String, u32, bool)> =
        bps.iter().map(|b| (b.id, b.filename.clone(), b.line, b.enabled)).collect();
    assert_eq!(
        summary,
        vec![(4, "a.js".to_string(), 5, true), (3, "b.js".to_string(), 7, true)]
    );
    // An empty list removes the file's breakpoints.
    session.set_breakpoints("a.js".to_string(), vec![]);
    let after: Vec<String> = session.collect_breakpoints().iter().map(|b| b.filename.clone()).collect();
    assert_eq!(after, vec!["b.js".to_string()]);

    match session.step(DapRequest::Continue) {
        BreakStep::Finish(_, action) => {
            assert_eq!(action.breakpoints.len(), 1);
            assert_eq!(action.breakpoints[0].line, 7);
        }
        _ => panic!("expected the break to end"),
    }
    let fallback = session.continue_action();
    assert_eq!(fallback.action, DebugActionType::Continue);
    assert_eq!(fallback.breakpoints.len(), 1);
}

#[test]
fn test_stack_trace_reply() {
    let (mut session, _) = BreakSession::open(sample_event(), BreakpointTable::new());
    let request = DapRequest::StackTrace { start_frame: None, levels: None };
    match reply(session.step(request)) {
        DapResponse::StackTrace { frames, total_frames } => {
            assert_eq!(total_frames, 2);
            assert_eq!(frames.len(), 2);
            assert_eq!(frames[0].id, 0);
            assert_eq!(frames[0].name, "helper");
            assert_eq!(frames[1].name, "main");
            assert_eq!(frames[1].location.line, 4);
        }
        other => panic!("unexpected response {:?}", other),
    }
}

#[test]
fn test_scopes_reply() {
    let (mut session, _) = BreakSession::open(sample_event(), BreakpointTable::new());
    match reply(session.step(DapRequest::Scopes { frame_id: 1 })) {
        DapResponse::Scopes { scopes } => {
            assert_eq!(scopes.len(), 1);
            assert_eq!(scopes[0].name, "Locals");
            assert_eq!(scopes[0].variables_reference, 1001);
            assert!(!scopes[0].expensive);
        }
        other => panic!("unexpected response {:?}", other),
    }
}

#[test]
fn test_variables_reply() {
    let (mut session, _) = BreakSession::open(sample_event(), BreakpointTable::new());
    match reply(session.step(DapRequest::Variables { variables_reference: 1000 })) {
        DapResponse::Variables { variables } => {
            let names: Vec<&str> = variables.iter().map(|v| v.name.as_str()).collect();
            assert_eq!(names, vec!["x", "y"]);
            assert_eq!(variables[1].value, "2");
            assert_eq!(variables[1].value_type.as_deref(), Some("number"));
            assert_eq!(variables[1].variables_reference, 0);
        }
        other => panic!("unexpected response {:?}", other),
    }
    match reply(session.step(DapRequest::Variables { variables_reference: 1001 })) {
        DapResponse::Variables { variables } => {
            assert_eq!(variables.len(), 1);
            assert_eq!(variables[0].name, "z");
        }
        other => panic!("unexpected response {:?}", other),
    }
    // Unknown frame: no variables. Below 1000: frame 0.
    match reply(session.step(DapRequest::Variables { variables_reference: 1005 })) {
        DapResponse::Variables { variables } => assert!(variables.is_empty()),
        other => panic!("unexpected response {:?}", other),
    }
    match reply(session.step(DapRequest::Variables { variables_reference: 7 })) {
        DapResponse::Variables { variables } => assert_eq!(variables.len(), 2),
        other => panic!("unexpected response {:?}", other),
    }
}

#[test]
fn test_evaluate_reply() {
    let (mut session, _) = BreakSession::open(sample_event(), BreakpointTable::new());
    let request = DapRequest::Evaluate { expression: "x + 1".to_string(), frame_id: None, context: None };
    match reply(session.step(request)) {
        DapResponse::Evaluate { result, value_type, variables_reference } => {
            assert_eq!(result, "(evaluation not implemented: x + 1)");
            assert_eq!(value_type.as_deref(), Some("string"));
            assert_eq!(variables_reference, 0);
        }
        other => panic!("unexpected response {:?}", other),
    }
}

#[test]
fn test_other_requests_ignored() {
    let (mut session, _) = BreakSession::open(sample_event(), BreakpointTable::new());
    assert!(matches!(session.step(DapRequest::Pause), BreakStep::Ignore));
    assert!(matches!(session.step(DapRequest::Initialize), BreakStep::Ignore));
    assert!(matches!(session.step(DapRequest::ConfigurationDone), BreakStep::Ignore));
    assert!(matches!(
        session.step(DapRequest::SetFunctionBreakpoints { names: vec!["f".to_string()] }),
        BreakStep::Ignore
    ));
}

#[test]
fn test_can_step_limits() {
    let (mut session, _) = BreakSession::open(sample_event(), BreakpointTable::new());
    assert!(session.can_step(&DapRequest::Scopes { frame_id: u32::MAX - 1000 }));
    assert!(!session.can_step(&DapRequest::Scopes { frame_id: u32::MAX - 999 }));
    assert!(session.can_step(&DapRequest::Continue));
    assert!(session.can_step(&DapRequest::SetBreakpoints { source_path: "a.js".to_string(), lines: vec![1; 3] }));
    session.set_breakpoints("a.js".to_string(), vec![1, 2]);
    assert_eq!(session.collect_breakpoints().len(), 2);
}

fn stack_page(session: &mut BreakSession, start_frame: Option<u32>, levels: Option<u32>) -> (Vec<String>, u32) {
    match reply(session.step(DapRequest::StackTrace { start_frame, levels })) {
        DapResponse::StackTrace { frames, total_frames } => {
            (frames.iter().map(|f| f.name.clone()).collect(), total_frames)
        }
        other => panic!("unexpected response {:?}", other),
    }
}

#[test]
fn test_stack_trace_paging() {
    let (mut session, _) = BreakSession::open(sample_event(), BreakpointTable::new());
    assert_eq!(stack_page(&mut session, Some(0), Some(1)), (vec!["helper".to_string()], 2));
    assert_eq!(stack_page(&mut session, Some(1), Some(1)), (vec!["main".to_string()], 2));
    assert_eq!(stack_page(&mut session, Some(1), None), (vec!["main".to_string()], 2));
    assert_eq!(stack_page(&mut session, Some(0), Some(0)).0.len(), 2);
    assert_eq!(stack_page(&mut session, None, Some(5)).0.len(), 2);
    assert_eq!(stack_page(&mut session, Some(2), Some(1)), (vec![], 2));
    assert_eq!(stack_page(&mut session, Some(u32::MAX), Some(u32::MAX)), (vec![], 2));
    assert_eq!(stack_page(&mut session, Some(1), Some(u32::MAX)), (vec!["main".to_string()], 2));
}

#[test]
fn test_breakpoints_carry_over_between_breaks() {
    let (mut first, _) = BreakSession::open(sample_event(), BreakpointTable::new());
    first.set_breakpoints("a.js".to_string(), vec![3]);
    let first_action = match first.step(DapRequest::Continue) {
        BreakStep::Finish(_, action) => action,
        _ => panic!("expected the break to end"),
    };
    let table = first.into_table();
    let (mut second, _) = BreakSession::open(sample_event(), table);
    match second.step(DapRequest::Continue) {
        BreakStep::Finish(_, action) => {
            assert_eq!(action.action, DebugActionType::Continue);
            let pairs: Vec<(String, u32)> = action.breakpoints.iter().map(|b| (b.filename.clone(), b.line)).collect();
            let first_pairs: Vec<(String, u32)> =
                first_action.breakpoints.iter().map(|b| (b.filename.clone(), b.line)).collect();
            assert_eq!(pairs, vec![("a.js".to_string(), 3)]);
            assert_eq!(pairs, first_pairs);
        }
        _ => panic!("expected the break to end"),
    }
    // New ids continue after the kept ones.
    second.set_breakpoints("b.js".to_string(), vec![8]);
    let ids: Vec<u32> = second.collect_breakpoints().iter().map(|b| b.id).collect();
    assert_eq!(ids, vec![1, 2]);
    let table = second.into_table();
    let fallback = table.continue_action();
    assert_eq!(fallback.action, DebugActionType::Continue);
    assert_eq!(fallback.breakpoints.len(), 2);
    assert!(BreakpointTable::new().continue_action().breakpoints.is_empty());
}
