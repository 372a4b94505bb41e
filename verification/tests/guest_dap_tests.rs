use hyperlight_js_dap::runtime::guest::dap::{
    basename, break_event_at, disable, enable, is_enabled, paths_match, reset, DebuggerState,
};
use hyperlight_js_dap::runtime::guest::debugger::{enable_debugger, reset_debugger_state};
use hyperlight_js_dap::shared::{
    DebugAction, DebugActionType, DebugBreakReason, DebugBreakpoint, DEBUG_BREAK_FUNC_NAME,
};

fn bp(id: u32, filename: &str, line: u32, enabled: bool) -> DebugBreakpoint {
    DebugBreakpoint { id, filename: filename.to_string(), line, enabled }
}

fn action(kind: DebugActionType, breakpoints: Vec<DebugBreakpoint>) -> DebugAction {
    DebugAction { action: kind, breakpoints }
}

#[test]
fn test_basename_cases() {
    assert_eq!(basename("/app/src/file.js"), "file.js");
    assert_eq!(basename("file.js"), "file.js");
    assert_eq!(basename("./file.js"), "file.js");
    assert_eq!(basename("src/dir/"), "dir");
    assert_eq!(basename("C:\\code\\main.js"), "main.js");
    assert_eq!(basename("a/b\\c.js"), "b\\c.js");
    assert_eq!(basename("///"), "");
    assert_eq!(basename(""), "");
}

#[test]
fn test_paths_match_cases() {
    assert!(paths_match("/app/src/file.js", "file.js"));
    assert!(paths_match("src/file.js", "/app/src/file.js"));
    assert!(paths_match("./file.js", "file.js"));
    assert!(paths_match("C:\\app\\file.js", "file.js"));
    assert!(!paths_match("/app/src/file.js", "other.js"));
    assert!(!paths_match("file.js", "myfile.js"));
    assert!(paths_match("x.js", "x.js"));
}

#[test]
fn test_paths_match_is_symmetric() {
    let paths = ["/app/src/file.js", "file.js", "src/file.js", "other.js", "./file.js", ""];
    for a in paths.iter() {
        assert!(paths_match(a, a));
        for b in paths.iter() {
            assert_eq!(paths_match(a, b), paths_match(b, a));
        }
    }
}

#[test]
fn test_default_enable_disable() {
    let mut state = DebuggerState::default();
    assert!(!is_enabled(&state));
    enable(&mut state, false);
    assert!(is_enabled(&state));
    disable(&mut state);
    assert!(!is_enabled(&state));
    enable_debugger(&mut state, true);
    assert!(is_enabled(&state));
}

#[test]
fn test_disabled_debugger_never_stops() {
    let mut state = DebuggerState::default();
    state.handle_action(action(DebugActionType::Continue, vec![bp(1, "app.js", 1, true)]));
    assert!(break_event_at(&mut state, "app.js", "main", 1, 1).is_none());
    assert!(state.should_break("app.js", 1, "main").is_some());
}

#[test]
fn test_has_breakpoint_respects_enabled_and_paths() {
    let mut state = DebuggerState::default();
    state.handle_action(action(
        DebugActionType::Continue,
        vec![bp(1, "/app/src/file.js", 3, true), bp(2, "other.js", 4, false)],
    ));
    assert!(state.has_breakpoint("file.js", 3));
    assert!(state.has_breakpoint("src/file.js", 3));
    assert!(!state.has_breakpoint("file.js", 4));
    assert!(!state.has_breakpoint("other.js", 4));
}

#[test]
fn test_stop_on_entry_only_once() {
    let mut state = DebuggerState::default();
    enable(&mut state, true);
    let ev = break_event_at(&mut state, "app.js", "main", 1, 0).unwrap();
    assert_eq!(ev.reason, DebugBreakReason::Entry);
    assert!(break_event_at(&mut state, "app.js", "main", 2, 0).is_none());
    assert!(break_event_at(&mut state, "app.js", "main", 3, 0).is_none());
}

#[test]
fn test_break_event_frames_most_recent_first() {
    let mut state = DebuggerState::default();
    enable(&mut state, false);
    assert!(break_event_at(&mut state, "app.js", "main", 1, 1).is_none());
    state.handle_action(action(DebugActionType::StepInto, vec![]));
    let ev = break_event_at(&mut state, "lib.js", "helper", 7, 2).unwrap();
    assert_eq!(ev.reason, DebugBreakReason::Step);
    assert_eq!(ev.location.filename, "lib.js");
    assert_eq!(ev.location.function_name.as_deref(), Some("helper"));
    assert_eq!(ev.location.line, 7);
    assert_eq!(ev.location.column, Some(2));
    assert!(ev.exception_message.is_none());
    assert_eq!(ev.stack_frames.len(), 2);
    assert_eq!(ev.stack_frames[0].id, 0);
    assert_eq!(ev.stack_frames[0].name, "helper");
    assert_eq!(ev.stack_frames[1].id, 1);
    assert_eq!(ev.stack_frames[1].name, "main");
    assert_eq!(ev.stack_frames[1].location.line, 1);
    assert!(ev.stack_frames.iter().all(|f| f.variables.is_empty()));
}

#[test]
fn test_breakpoint_hit_once_per_line() {
    let mut state = DebuggerState::default();
    enable(&mut state, false);
    state.handle_action(action(DebugActionType::Continue, vec![bp(1, "app.js", 2, true)]));
    assert!(break_event_at(&mut state, "/srv/app.js", "main", 1, 1).is_none());
    let ev = break_event_at(&mut state, "/srv/app.js", "main", 2, 1).unwrap();
    assert_eq!(ev.reason, DebugBreakReason::Breakpoint);
    assert!(break_event_at(&mut state, "/srv/app.js", "main", 2, 5).is_none());
}

#[test]
fn test_step_over_skips_calls() {
    let mut state = DebuggerState::default();
    enable(&mut state, false);
    break_event_at(&mut state, "app.js", "main", 1, 1);
    state.handle_action(action(DebugActionType::StepOver, vec![]));
    assert!(break_event_at(&mut state, "app.js", "callee", 10, 1).is_none());
    assert!(break_event_at(&mut state, "app.js", "callee", 11, 1).is_none());
    let ev = break_event_at(&mut state, "app.js", "main", 2, 1).unwrap();
    assert_eq!(ev.reason, DebugBreakReason::Step);
}

#[test]
fn test_step_over_respects_breakpoints_in_callee() {
    let mut state = DebuggerState::default();
    enable(&mut state, false);
    break_event_at(&mut state, "app.js", "main", 1, 1);
    state.handle_action(action(DebugActionType::StepOver, vec![bp(1, "app.js", 11, true)]));
    assert!(break_event_at(&mut state, "app.js", "callee", 10, 1).is_none());
    let ev = break_event_at(&mut state, "app.js", "callee", 11, 1).unwrap();
    assert_eq!(ev.reason, DebugBreakReason::Breakpoint);
}

#[test]
fn test_step_out_stops_in_caller() {
    let mut state = DebuggerState::default();
    enable(&mut state, false);
    break_event_at(&mut state, "app.js", "main", 1, 1);
    break_event_at(&mut state, "app.js", "callee", 10, 1);
    state.handle_action(action(DebugActionType::StepOut, vec![]));
    assert!(break_event_at(&mut state, "app.js", "callee", 11, 1).is_none());
    let ev = break_event_at(&mut state, "app.js", "main", 2, 1).unwrap();
    assert_eq!(ev.reason, DebugBreakReason::Step);
    assert_eq!(ev.stack_frames.len(), 1);
}

#[test]
fn test_action_replaces_breakpoints() {
    let mut state = DebuggerState::default();
    enable(&mut state, false);
    state.handle_action(action(DebugActionType::Continue, vec![bp(1, "a.js", 1, true)]));
    assert!(state.has_breakpoint("a.js", 1));
    state.handle_action(action(DebugActionType::Continue, vec![bp(2, "b.js", 2, true)]));
    assert!(!state.has_breakpoint("a.js", 1));
    assert!(state.has_breakpoint("b.js", 2));
    state.handle_action(action(DebugActionType::Continue, vec![]));
    assert!(!state.has_breakpoint("b.js", 2));
}

#[test]
fn test_disconnect_disables() {
    let mut state = DebuggerState::default();
    enable(&mut state, false);
    state.handle_action(action(DebugActionType::Disconnect, vec![bp(1, "a.js", 1, true)]));
    assert!(!is_enabled(&state));
    assert!(break_event_at(&mut state, "a.js", "main", 1, 1).is_none());
}

#[test]
fn test_reset_keeps_configuration() {
    let mut state = DebuggerState::default();
    enable(&mut state, true);
    state.handle_action(action(DebugActionType::StepInto, vec![bp(1, "a.js", 5, true)]));
    break_event_at(&mut state, "a.js", "main", 1, 1);
    reset(&mut state);
    assert!(is_enabled(&state));
    assert!(state.has_breakpoint("a.js", 5));
    // The entry stop is armed again and the stack starts empty.
    let ev = break_event_at(&mut state, "a.js", "main", 1, 1).unwrap();
    assert_eq!(ev.reason, DebugBreakReason::Entry);
    assert_eq!(ev.stack_frames.len(), 1);
    reset_debugger_state(&mut state);
    assert!(is_enabled(&state));
}

#[test]
fn test_debug_break_function_name() {
    assert_eq!(DEBUG_BREAK_FUNC_NAME, "hl_dap_debug_break");
}

#[test]
fn test_step_stops_on_function_change_same_line() {
    let mut state = DebuggerState::default();
    enable(&mut state, false);
    assert!(break_event_at(&mut state, "app.js", "main", 5, 1).is_none());
    state.handle_action(action(DebugActionType::StepInto, vec![]));
    let ev = break_event_at(&mut state, "app.js", "inner", 5, 9).unwrap();
    assert_eq!(ev.reason, DebugBreakReason::Step);
    assert_eq!(ev.stack_frames[0].name, "inner");
    // Same line, same function: no stop.
    assert!(break_event_at(&mut state, "app.js", "inner", 5, 12).is_none());
}
