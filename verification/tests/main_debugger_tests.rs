use hyperlight_js_dap::runtime::main::debugger::{
    add_breakpoint, apply_host_response, disable_debugger, enable_debugger, escape_json_string,
    extract_json_number, extract_json_string, is_debugger_enabled, normalize_path,
    parse_debug_action, remove_breakpoint, reset_debugger_state, trace_event, Breakpoint,
    DebugActionType, DebugBreakEvent, DebugMode, DebuggerState, Location, StackFrame, StopReason,
    Variable,
};

fn enabled_state(stop_on_entry: bool) -> DebuggerState {
    let mut state = DebuggerState::default();
    enable_debugger(&mut state, stop_on_entry);
    state
}

#[test]
fn test_escape_json_string_cases() {
    assert_eq!(escape_json_string("plain"), "plain");
    assert_eq!(escape_json_string("a\"b"), "a\\\"b");
    assert_eq!(escape_json_string("back\\slash"), "back\\\\slash");
    assert_eq!(escape_json_string("l1\nl2\r\t"), "l1\\nl2\\r\\t");
    assert_eq!(escape_json_string("\u{1}"), "\\u0001");
    assert_eq!(escape_json_string("\u{1f}"), "\\u001f");
    assert_eq!(escape_json_string("\u{7f}"), "\\u007f");
    assert_eq!(escape_json_string("é"), "é");
    assert_eq!(escape_json_string(""), "");
}

#[test]
fn test_escape_then_extract_round_trip() {
    let text = "say \"hi\"\\ and\nbye\t";
    let json = format!("{{\"filename\":\"{}\"}}", escape_json_string(text));
    assert_eq!(extract_json_string(&json, "filename"), Some(text.to_string()));
}

#[test]
fn test_extract_json_string_cases() {
    assert_eq!(
        extract_json_string(r#"{"filename":"file.js","line":10}"#, "filename"),
        Some("file.js".to_string())
    );
    assert_eq!(extract_json_string(r#"{"line":10}"#, "filename"), None);
    // Unterminated string.
    assert_eq!(extract_json_string(r#"{"filename":"file.js"#, "filename"), None);
    // Unknown escapes are kept as written.
    assert_eq!(
        extract_json_string(r#"{"k":"a\qb"}"#, "k"),
        Some("a\\qb".to_string())
    );
}

#[test]
fn test_extract_json_number_cases() {
    assert_eq!(extract_json_number(r#"{"line":10}"#, "line"), Some(10));
    assert_eq!(extract_json_number(r#"{"line":0}"#, "line"), Some(0));
    assert_eq!(extract_json_number(r#"{"line":"10"}"#, "line"), None);
    assert_eq!(extract_json_number(r#"{"line":-3}"#, "line"), None);
    assert_eq!(extract_json_number(r#"{"col":3}"#, "line"), None);
    assert_eq!(extract_json_number(r#"{"line":4294967295}"#, "line"), Some(4294967295));
    assert_eq!(extract_json_number(r#"{"line":4294967296}"#, "line"), None);
    assert_eq!(extract_json_number(r#"{"line":12abc}"#, "line"), Some(12));
}

#[test]
fn test_parse_debug_action_documented_format() {
    let action =
        parse_debug_action(r#"{"action":"continue","breakpoints":[{"filename":"file.js","line":10}]}"#)
            .unwrap();
    assert_eq!(action.action, DebugActionType::Continue);
    let bps = action.breakpoints.unwrap();
    assert_eq!(bps, vec![Breakpoint { filename: "file.js".to_string(), line: 10 }]);
}

#[test]
fn test_parse_debug_action_kinds() {
    let kind = |json: &str| parse_debug_action(json).unwrap().action;
    assert_eq!(kind(r#"{"action":"StepInto"}"#), DebugActionType::StepInto);
    assert_eq!(kind(r#"{"action":"Step"}"#), DebugActionType::StepInto);
    assert_eq!(kind(r#"{"action":"StepOver"}"#), DebugActionType::StepOver);
    assert_eq!(kind(r#"{"action":"Next"}"#), DebugActionType::StepOver);
    assert_eq!(kind(r#"{"action":"StepOut"}"#), DebugActionType::StepOut);
    assert_eq!(kind(r#"{"action":"Pause"}"#), DebugActionType::Pause);
    assert_eq!(kind(r#"{"action":"Disconnect"}"#), DebugActionType::Disconnect);
    assert_eq!(kind(r#"{"action":"whatever"}"#), DebugActionType::Continue);
    assert_eq!(kind(""), DebugActionType::Continue);
}

#[test]
fn test_parse_debug_action_breakpoints() {
    let none = parse_debug_action(r#"{"action":"continue"}"#).unwrap();
    assert!(none.breakpoints.is_none());

    let empty = parse_debug_action(r#"{"action":"continue","breakpoints":[]}"#).unwrap();
    assert_eq!(empty.breakpoints.unwrap().len(), 0);

    let two = parse_debug_action(
        r#"{"action":"Next","breakpoints":[{"filename":"a.js","line":1},{"filename":"b.js","line":2}]}"#,
    )
    .unwrap();
    assert_eq!(two.action, DebugActionType::StepOver);
    assert_eq!(
        two.breakpoints.unwrap(),
        vec![
            Breakpoint { filename: "a.js".to_string(), line: 1 },
            Breakpoint { filename: "b.js".to_string(), line: 2 },
        ]
    );

    // Entries without a line are skipped.
    let partial = parse_debug_action(
        r#"{"action":"continue","breakpoints":[{"filename":"a.js"},{"filename":"b.js","line":7}]}"#,
    )
    .unwrap();
    assert_eq!(
        partial.breakpoints.unwrap(),
        vec![Breakpoint { filename: "b.js".to_string(), line: 7 }]
    );

    // An array that is never closed yields an empty list.
    let unclosed = parse_debug_action(r#"{"action":"continue","breakpoints":[{"filename":"a.js","line":1}"#)
        .unwrap();
    assert_eq!(unclosed.breakpoints.unwrap().len(), 0);
}

#[test]
fn test_normalize_path_cases() {
    assert_eq!(normalize_path("./src/app.js"), "src/app.js");
    assert_eq!(normalize_path("src\\lib\\x.js"), "src/lib/x.js");
    assert_eq!(normalize_path(".\\x.js"), "x.js");
    assert_eq!(normalize_path("/abs/x.js"), "/abs/x.js");
    assert_eq!(normalize_path("././x.js"), "./x.js");
}

#[test]
fn test_stop_reason_as_str() {
    assert_eq!(StopReason::Entry.as_str(), "entry");
    assert_eq!(StopReason::Breakpoint.as_str(), "breakpoint");
    assert_eq!(StopReason::Step.as_str(), "step");
    assert_eq!(StopReason::Pause.as_str(), "pause");
    assert_eq!(StopReason::Exception.as_str(), "exception");
}

#[test]
fn test_event_to_json() {
    let location = Location {
        filename: "app.js".to_string(),
        function: "main".to_string(),
        line: 3,
        column: 5,
    };
    assert_eq!(
        location.to_json(),
        r#"{"filename":"app.js","function":"main","line":3,"column":5}"#
    );
    let frame = StackFrame {
        id: 0,
        name: "ma\"in".to_string(),
        location: location.clone(),
        variables: vec![Variable {
            name: "x".to_string(),
            value: "1".to_string(),
            value_type: "number".to_string(),
        }],
    };
    assert_eq!(
        frame.to_json(),
        r#"{"id":0,"name":"ma\"in","location":{"filename":"app.js","function":"main","line":3,"column":5}}"#
    );
    let event = DebugBreakEvent {
        reason: StopReason::Breakpoint,
        location: location.clone(),
        stack_frames: vec![frame.clone(), StackFrame { id: 1, ..frame.clone() }],
    };
    let l = r#"{"filename":"app.js","function":"main","line":3,"column":5}"#;
    let expected = format!(
        r#"{{"reason":"breakpoint","location":{l},"stack_frames":[{{"id":0,"name":"ma\"in","location":{l}}},{{"id":1,"name":"ma\"in","location":{l}}}]}}"#
    );
    assert_eq!(event.to_json(), expected);
    let empty = DebugBreakEvent { reason: StopReason::Entry, location, stack_frames: vec![] };
    assert_eq!(
        empty.to_json(),
        format!(r#"{{"reason":"entry","location":{l},"stack_frames":[]}}"#)
    );
}

#[test]
fn test_enable_disable() {
    let mut state = DebuggerState::default();
    assert!(!is_debugger_enabled(&state));
    enable_debugger(&mut state, true);
    assert!(is_debugger_enabled(&state));
    assert!(state.stop_on_entry);
    assert!(state.first_op);
    disable_debugger(&mut state);
    assert!(!is_debugger_enabled(&state));
    assert!(state.stop_on_entry);
}

#[test]
fn test_add_and_remove_breakpoint() {
    let mut state = enabled_state(false);
    add_breakpoint(&mut state, "./app.js".to_string(), 4);
    assert!(state.has_breakpoint("app.js", 4));
    assert!(state.has_breakpoint(".\\app.js", 4));
    assert!(!state.has_breakpoint("app.js", 5));
    assert!(!state.has_breakpoint("other.js", 4));
    // Adding twice keeps one breakpoint.
    add_breakpoint(&mut state, "./app.js".to_string(), 4);
    remove_breakpoint(&mut state, "./app.js", 4);
    assert!(!state.has_breakpoint("app.js", 4));
    // Removing an absent breakpoint changes nothing.
    add_breakpoint(&mut state, "b.js".to_string(), 1);
    remove_breakpoint(&mut state, "b.js", 2);
    assert!(state.has_breakpoint("b.js", 1));
}

#[test]
fn test_trace_event_disabled_ignored() {
    let mut state = DebuggerState::default();
    add_breakpoint(&mut state, "app.js".to_string(), 1);
    assert!(trace_event(&mut state, "app.js", "main", 1, 1).is_none());
    assert!(state.call_stack.is_empty());
    assert!(state.last_line.is_none());
}

#[test]
fn test_trace_event_stop_on_entry_once() {
    let mut state = enabled_state(true);
    let ev = trace_event(&mut state, "app.js", "main", 1, 2).unwrap();
    assert_eq!(ev.reason, StopReason::Entry);
    assert_eq!(ev.location.filename, "app.js");
    assert_eq!(ev.location.function, "main");
    assert_eq!(ev.location.line, 1);
    assert_eq!(ev.location.column, 2);
    assert_eq!(ev.stack_frames.len(), 1);
    assert_eq!(ev.stack_frames[0].name, "main");
    assert!(!state.first_op);
    // The entry stop does not happen again.
    assert!(trace_event(&mut state, "app.js", "main", 2, 1).is_none());
}

#[test]
fn test_trace_event_breakpoint_and_same_line() {
    let mut state = enabled_state(false);
    add_breakpoint(&mut state, "app.js".to_string(), 3);
    assert!(trace_event(&mut state, "app.js", "main", 1, 1).is_none());
    let ev = trace_event(&mut state, "./app.js", "main", 3, 7).unwrap();
    assert_eq!(ev.reason, StopReason::Breakpoint);
    assert_eq!(state.last_line, Some(3));
    assert_eq!(state.last_file.as_deref(), Some("./app.js"));
    // Several events on the same line stop only once.
    assert!(trace_event(&mut state, "./app.js", "main", 3, 9).is_none());
}

#[test]
fn test_call_stack_tracking_and_frames_innermost_first() {
    let mut state = enabled_state(false);
    trace_event(&mut state, "app.js", "main", 1, 1);
    trace_event(&mut state, "app.js", "helper", 10, 1);
    assert_eq!(state.call_stack.len(), 2);
    assert_eq!(state.call_stack[1].name, "helper");
    assert_eq!(state.call_stack[1].id, 1);
    // Returning to the parent pops.
    trace_event(&mut state, "app.js", "main", 2, 4);
    assert_eq!(state.call_stack.len(), 1);
    assert_eq!(state.call_stack[0].location.line, 2);
    assert_eq!(state.call_stack[0].location.column, 4);
    assert_eq!(state.current_function.as_deref(), Some("main"));

    // Step into reports the whole stack, innermost frame first.
    apply_host_response(&mut state, r#"{"action":"StepInto"}"#);
    assert_eq!(state.mode, DebugMode::Step);
    let ev = trace_event(&mut state, "lib.js", "inner", 20, 3).unwrap();
    assert_eq!(ev.reason, StopReason::Step);
    assert_eq!(ev.stack_frames.len(), 2);
    assert_eq!(ev.stack_frames[0].name, "inner");
    assert_eq!(ev.stack_frames[1].name, "main");
}

#[test]
fn test_step_over_and_step_out() {
    let mut state = enabled_state(false);
    trace_event(&mut state, "app.js", "main", 1, 1);
    apply_host_response(&mut state, r#"{"action":"StepOver"}"#);
    assert_eq!(state.mode, DebugMode::StepOver);
    assert_eq!(state.step_depth, 1);
    // Deeper frame without breakpoint: no stop.
    assert!(trace_event(&mut state, "app.js", "helper", 10, 1).is_none());
    // Back at the starting depth on a new line: stop.
    let ev = trace_event(&mut state, "app.js", "main", 2, 1).unwrap();
    assert_eq!(ev.reason, StopReason::Step);

    trace_event(&mut state, "app.js", "helper", 11, 1);
    apply_host_response(&mut state, r#"{"action":"StepOut"}"#);
    assert_eq!(state.step_depth, 2);
    assert!(trace_event(&mut state, "app.js", "helper", 12, 1).is_none());
    let ev = trace_event(&mut state, "app.js", "main", 3, 1).unwrap();
    assert_eq!(ev.reason, StopReason::Step);
}

#[test]
fn test_apply_host_response_replaces_breakpoints() {
    let mut state = enabled_state(false);
    add_breakpoint(&mut state, "old.js".to_string(), 1);
    apply_host_response(
        &mut state,
        r#"{"action":"continue","breakpoints":[{"filename":"new.js","line":5}]}"#,
    );
    assert!(!state.has_breakpoint("old.js", 1));
    assert!(state.has_breakpoint("new.js", 5));
    // Without a breakpoints array the set is kept.
    apply_host_response(&mut state, r#"{"action":"continue"}"#);
    assert!(state.has_breakpoint("new.js", 5));
    // An empty array clears it.
    apply_host_response(&mut state, r#"{"action":"continue","breakpoints":[]}"#);
    assert!(!state.has_breakpoint("new.js", 5));
    // Disconnect disables the debugger.
    apply_host_response(&mut state, r#"{"action":"Disconnect"}"#);
    assert!(!is_debugger_enabled(&state));
    assert_eq!(state.mode, DebugMode::Running);
}

#[test]
fn test_pause_action_continues() {
    let mut state = enabled_state(false);
    add_breakpoint(&mut state, "app.js".to_string(), 2);
    apply_host_response(&mut state, r#"{"action":"StepInto"}"#);
    apply_host_response(&mut state, r#"{"action":"Pause"}"#);
    assert_eq!(state.mode, DebugMode::Running);
    assert!(trace_event(&mut state, "app.js", "main", 1, 1).is_none());
    let ev = trace_event(&mut state, "app.js", "main", 2, 1).unwrap();
    assert_eq!(ev.reason, StopReason::Breakpoint);
}

#[test]
fn test_reset_debugger_state_keeps_configuration() {
    let mut state = enabled_state(true);
    add_breakpoint(&mut state, "app.js".to_string(), 2);
    trace_event(&mut state, "app.js", "main", 1, 1);
    apply_host_response(&mut state, r#"{"action":"StepOver"}"#);
    reset_debugger_state(&mut state);
    assert!(state.enabled);
    assert!(state.stop_on_entry);
    assert!(state.first_op);
    assert!(state.has_breakpoint("app.js", 2));
    assert!(state.call_stack.is_empty());
    assert_eq!(state.step_depth, 0);
    assert_eq!(state.mode, DebugMode::Running);
    assert!(state.last_line.is_none());
    assert!(state.last_file.is_none());
    assert!(state.current_function.is_none());
}

#[test]
fn test_main_step_stops_on_function_change_same_line() {
    let mut state = enabled_state(false);
    assert!(trace_event(&mut state, "app.js", "main", 5, 1).is_none());
    apply_host_response(&mut state, r#"{"action":"StepInto"}"#);
    let ev = trace_event(&mut state, "app.js", "inner", 5, 9).unwrap();
    assert_eq!(ev.reason, StopReason::Step);
    assert_eq!(ev.stack_frames[0].name, "inner");
    assert!(trace_event(&mut state, "app.js", "inner", 5, 12).is_none());
}
