//! DAP wire protocol types.
//!
//! These are the JSON structures of the Debug Adapter Protocol exchanged with
//! DAP clients; their (de)serialization happens outside this crate.

use vstd::prelude::*;

use crate::text::owned;

verus! {

broadcast use vstd::string::group_string_axioms;

#[verifier::external_type_specification]
#[verifier::external_body]
pub struct ExJsonValue(serde_json::Value);

/// `Value::clone`: a copy of a JSON value; nothing is stated of it.
pub assume_specification[ <serde_json::Value as core::clone::Clone>::clone ](v: &serde_json::Value) -> (r: serde_json::Value);

/// Base protocol message format: every DAP message has a sequence number
/// and a type.
#[derive(Debug, Clone)]
pub struct ProtocolMessage {
    /// Sequence number of the message (unique within a session).
    pub seq: i64,
    /// Message type: "request", "response", or "event".
    pub message_type: String,
}

/// A client request message.
#[derive(Debug, Clone)]
pub struct Request {
    /// Sequence number.
    pub seq: i64,
    /// Always "request".
    pub message_type: String,
    /// The command to execute.
    pub command: String,
    /// Command arguments (optional).
    pub arguments: Option<serde_json::Value>,
}

/// A server response message.
#[derive(Debug, Clone)]
pub struct Response {
    /// Sequence number.
    pub seq: i64,
    /// Always "response".
    pub message_type: String,
    /// Sequence number of the request this is responding to.
    pub request_seq: i64,
    /// Whether the request was successful.
    pub success: bool,
    /// The command that was requested.
    pub command: String,
    /// Error message if success is false.
    pub message: Option<String>,
    /// Response body (command-specific).
    pub body: Option<serde_json::Value>,
}

impl Response {
    /// Creates a successful response (its sequence number is set when sent).
    pub fn success(request_seq: i64, command: &str, body: Option<serde_json::Value>) -> (r: Self)
        ensures
            r.seq == 0,
            r.message_type@ == "response"@,
            r.request_seq == request_seq,
            r.success,
            r.command@ == command@,
            r.message is None,
            r.body == body,
    {
        Response {
            seq: 0,
            message_type: owned("response"),
            request_seq,
            success: true,
            command: owned(command),
            message: None,
            body,
        }
    }

    /// Creates an error response (its sequence number is set when sent).
    pub fn error(request_seq: i64, command: &str, message: &str) -> (r: Self)
        ensures
            r.seq == 0,
            r.message_type@ == "response"@,
            r.request_seq == request_seq,
            !r.success,
            r.command@ == command@,
            r.message matches Some(m) && m@ == message@,
            r.body is None,
    {
        Response {
            seq: 0,
            message_type: owned("response"),
            request_seq,
            success: false,
            command: owned(command),
            message: Some(owned(message)),
            body: None,
        }
    }
}

/// A server event message.
#[derive(Debug, Clone)]
pub struct Event {
    /// Sequence number.
    pub seq: i64,
    /// Always "event".
    pub message_type: String,
    /// Type of event.
    pub event: String,
    /// Event-specific body.
    pub body: Option<serde_json::Value>,
}

impl Event {
    /// Creates a new event (its sequence number is set when sent).
    pub fn new(event: &str, body: Option<serde_json::Value>) -> (r: Self)
        ensures
            r.seq == 0,
            r.message_type@ == "event"@,
            r.event@ == event@,
            r.body == body,
    {
        Event { seq: 0, message_type: owned("event"), event: owned(event), body }
    }
}

// ============================================================================
// Request argument types
// ============================================================================

/// Arguments for the 'initialize' request.
#[derive(Debug, Clone, Default)]
pub struct InitializeRequestArguments {
    /// The ID of the client (e.g., "vscode").
    pub client_id: Option<String>,
    /// The human-readable name of the client.
    pub client_name: Option<String>,
    /// The ID of the debug adapter.
    pub adapter_id: String,
    /// The locale of the client (e.g., "en-US").
    pub locale: Option<String>,
    /// Whether the client supports the 'runInTerminal' request.
    pub supports_run_in_terminal_request: bool,
    /// Whether the client supports progress reporting.
    pub supports_progress_reporting: bool,
    /// Whether the client supports variable type information.
    pub supports_variable_type: bool,
}

/// Arguments for the 'launch' request.
#[derive(Debug, Clone, Default)]
pub struct LaunchRequestArguments {
    /// Do not launch the debuggee, just connect to it.
    pub no_debug: bool,
    /// Custom arguments (adapter-specific).
    pub additional: serde_json::Value,
}

/// Arguments for the 'attach' request.
#[derive(Debug, Clone, Default)]
pub struct AttachRequestArguments {
    /// Custom arguments (adapter-specific).
    pub additional: serde_json::Value,
}

/// Arguments for the 'setBreakpoints' request.
#[derive(Debug, Clone)]
pub struct SetBreakpointsArguments {
    /// The source location of the breakpoints.
    pub source: Source,
    /// The breakpoints to set.
    pub breakpoints: Vec<SourceBreakpoint>,
    /// Deprecated: line numbers for breakpoints.
    pub lines: Vec<i64>,
    /// Source modified flag.
    pub source_modified: bool,
}

/// A source file reference.
#[derive(Debug, Clone)]
pub struct Source {
    /// Name of the source (short name displayed in UI).
    pub name: Option<String>,
    /// Path to the source file.
    pub path: Option<String>,
    /// Source reference (for sources without a file path).
    pub source_reference: Option<i64>,
}

impl Default for Source {
    fn default() -> (r: Self)
        ensures
            r.name is None,
            r.path is None,
            r.source_reference is None,
    {
        Source { name: None, path: None, source_reference: None }
    }
}

/// A breakpoint in source code.
#[derive(Debug, Clone)]
pub struct SourceBreakpoint {
    /// Line number (1-based).
    pub line: i64,
    /// Column (optional, 1-based).
    pub column: Option<i64>,
    /// Condition expression.
    pub condition: Option<String>,
    /// Hit count condition.
    pub hit_condition: Option<String>,
    /// Log message (for logpoints).
    pub log_message: Option<String>,
}

/// Arguments for the 'setFunctionBreakpoints' request.
#[derive(Debug, Clone)]
pub struct SetFunctionBreakpointsArguments {
    /// The function breakpoints to set.
    pub breakpoints: Vec<FunctionBreakpoint>,
}

/// A function breakpoint.
#[derive(Debug, Clone)]
pub struct FunctionBreakpoint {
    /// Name of the function.
    pub name: String,
    /// Condition expression.
    pub condition: Option<String>,
    /// Hit count condition.
    pub hit_condition: Option<String>,
}

/// Arguments for the 'stackTrace' request.
#[derive(Debug, Clone, Default)]
pub struct StackTraceArguments {
    /// Thread ID.
    pub thread_id: i64,
    /// Index of the first frame to retrieve.
    pub start_frame: Option<i64>,
    /// Maximum number of frames to retrieve.
    pub levels: Option<i64>,
}

/// Arguments for the 'scopes' request.
#[derive(Debug, Clone)]
pub struct ScopesArguments {
    /// Frame ID to get scopes for.
    pub frame_id: i64,
}

/// Arguments for the 'variables' request.
#[derive(Debug, Clone)]
pub struct VariablesArguments {
    /// Reference of the container to get variables from.
    pub variables_reference: i64,
    /// Filter for the type of variables to include.
    pub filter: Option<String>,
    /// Start index of variables to return.
    pub start: Option<i64>,
    /// Number of variables to return.
    pub count: Option<i64>,
}

/// Arguments for the 'evaluate' request.
#[derive(Debug, Clone)]
pub struct EvaluateArguments {
    /// Expression to evaluate.
    pub expression: String,
    /// Frame ID for context (optional).
    pub frame_id: Option<i64>,
    /// Context of evaluation.
    pub context: Option<String>,
}

/// Arguments for the 'continue' request.
#[derive(Debug, Clone, Default)]
pub struct ContinueArguments {
    /// Thread to continue (usually the only thread).
    pub thread_id: i64,
    /// Continue only the specified thread.
    pub single_thread: bool,
}

/// Arguments for the 'disconnect' request.
#[derive(Debug, Clone, Default)]
pub struct DisconnectArguments {
    /// Whether to restart after disconnect.
    pub restart: bool,
    /// Whether to terminate the debuggee.
    pub terminate_debuggee: bool,
    /// Whether to suspend the debuggee.
    pub suspend_debuggee: bool,
}

// ============================================================================
// Response body types
// ============================================================================

/// Capabilities returned from the 'initialize' request.
#[derive(Debug, Clone)]
pub struct Capabilities {
    pub supports_configuration_done_request: bool,
    pub supports_function_breakpoints: bool,
    pub supports_conditional_breakpoints: bool,
    pub supports_hit_conditional_breakpoints: bool,
    pub supports_evaluate_for_hovers: bool,
    pub supports_step_back: bool,
    pub supports_set_variable: bool,
    pub supports_restart_frame: bool,
    pub supports_goto_targets_request: bool,
    pub supports_step_in_targets_request: bool,
    pub supports_completions_request: bool,
    pub supports_modules_request: bool,
    pub supports_terminate_request: bool,
    pub supports_exception_options: bool,
    pub supports_value_formatting_options: bool,
    pub supports_exception_info_request: bool,
    pub support_terminate_debuggee: bool,
    pub supports_delayed_stack_trace_loading: bool,
    pub supports_loaded_sources_request: bool,
    pub supports_log_points: bool,
    pub supports_terminate_threads_request: bool,
    pub supports_set_expression: bool,
    pub supports_single_thread_execution_requests: bool,
}

/// No capability at all.
pub open spec fn no_capabilities() -> Capabilities {
    Capabilities {
        supports_configuration_done_request: false,
        supports_function_breakpoints: false,
        supports_conditional_breakpoints: false,
        supports_hit_conditional_breakpoints: false,
        supports_evaluate_for_hovers: false,
        supports_step_back: false,
        supports_set_variable: false,
        supports_restart_frame: false,
        supports_goto_targets_request: false,
        supports_step_in_targets_request: false,
        supports_completions_request: false,
        supports_modules_request: false,
        supports_terminate_request: false,
        supports_exception_options: false,
        supports_value_formatting_options: false,
        supports_exception_info_request: false,
        support_terminate_debuggee: false,
        supports_delayed_stack_trace_loading: false,
        supports_loaded_sources_request: false,
        supports_log_points: false,
        supports_terminate_threads_request: false,
        supports_set_expression: false,
        supports_single_thread_execution_requests: false,
    }
}

impl Default for Capabilities {
    fn default() -> (r: Self)
        ensures
            r == no_capabilities(),
    {
        Capabilities {
            supports_configuration_done_request: false,
            supports_function_breakpoints: false,
            supports_conditional_breakpoints: false,
            supports_hit_conditional_breakpoints: false,
            supports_evaluate_for_hovers: false,
            supports_step_back: false,
            supports_set_variable: false,
            supports_restart_frame: false,
            supports_goto_targets_request: false,
            supports_step_in_targets_request: false,
            supports_completions_request: false,
            supports_modules_request: false,
            supports_terminate_request: false,
            supports_exception_options: false,
            supports_value_formatting_options: false,
            supports_exception_info_request: false,
            support_terminate_debuggee: false,
            supports_delayed_stack_trace_loading: false,
            supports_loaded_sources_request: false,
            supports_log_points: false,
            supports_terminate_threads_request: false,
            supports_set_expression: false,
            supports_single_thread_execution_requests: false,
        }
    }
}

/// Body of the 'setBreakpoints' response.
#[derive(Debug, Clone)]
pub struct SetBreakpointsResponseBody {
    /// Breakpoints that were set.
    pub breakpoints: Vec<BreakpointInfo>,
}

/// Information about a breakpoint.
#[derive(Debug, Clone)]
pub struct BreakpointInfo {
    /// Unique ID of the breakpoint.
    pub id: Option<i64>,
    /// Whether the breakpoint was successfully set.
    pub verified: bool,
    /// Error message if not verified.
    pub message: Option<String>,
    /// Actual source where the breakpoint was set.
    pub source: Option<Source>,
    /// Actual line where the breakpoint was set.
    pub line: Option<i64>,
    /// Actual column where the breakpoint was set.
    pub column: Option<i64>,
}

/// Body of the 'stackTrace' response.
#[derive(Debug, Clone)]
pub struct StackTraceResponseBody {
    /// Stack frames.
    pub stack_frames: Vec<StackFrameInfo>,
    /// Total number of frames.
    pub total_frames: Option<i64>,
}

/// Information about a stack frame.
#[derive(Debug, Clone)]
pub struct StackFrameInfo {
    /// Unique ID.
    pub id: i64,
    /// Name (function name).
    pub name: String,
    /// Source location.
    pub source: Option<Source>,
    /// Line number.
    pub line: i64,
    /// Column number.
    pub column: i64,
}

/// Body of the 'scopes' response.
#[derive(Debug, Clone)]
pub struct ScopesResponseBody {
    /// Scopes for the frame.
    pub scopes: Vec<ScopeInfo>,
}

/// Information about a scope.
#[derive(Debug, Clone)]
pub struct ScopeInfo {
    /// Name of the scope.
    pub name: String,
    /// Reference for retrieving variables.
    pub variables_reference: i64,
    /// Whether this scope is expensive to retrieve.
    pub expensive: bool,
}

/// Body of the 'variables' response.
#[derive(Debug, Clone)]
pub struct VariablesResponseBody {
    /// Variables in the scope.
    pub variables: Vec<VariableInfo>,
}

/// Information about a variable.
#[derive(Debug, Clone)]
pub struct VariableInfo {
    /// Name of the variable.
    pub name: String,
    /// Value as string.
    pub value: String,
    /// Type of the variable.
    pub value_type: Option<String>,
    /// Reference for child variables.
    pub variables_reference: i64,
}

/// Body of the 'evaluate' response.
#[derive(Debug, Clone)]
pub struct EvaluateResponseBody {
    /// Result value.
    pub result: String,
    /// Type of the result.
    pub value_type: Option<String>,
    /// Reference for child variables.
    pub variables_reference: i64,
}

/// A thread as reported to the client.
#[derive(Debug, Clone)]
pub struct ThreadInfo {
    /// Thread ID.
    pub id: i64,
    /// Thread name.
    pub name: String,
}

/// Body of the 'threads' response.
#[derive(Debug, Clone)]
pub struct ThreadsResponseBody {
    /// All threads.
    pub threads: Vec<ThreadInfo>,
}

/// Body of the 'continue' response.
#[derive(Debug, Clone, Default)]
pub struct ContinueResponseBody {
    /// Whether all threads continued.
    pub all_threads_continued: bool,
}

/// The value a missing `allThreadsContinued` takes when read.
pub fn default_true() -> (r: bool)
    ensures
        r,
{
    true
}

// ============================================================================
// Event body types
// ============================================================================

/// Body of the 'stopped' event.
#[derive(Debug, Clone)]
pub struct StoppedEventBody {
    /// Reason for stopping.
    pub reason: String,
    /// Additional description.
    pub description: Option<String>,
    /// Thread that stopped.
    pub thread_id: Option<i64>,
    /// Whether all threads stopped.
    pub all_threads_stopped: bool,
    /// IDs of breakpoints that were hit.
    pub hit_breakpoint_ids: Option<Vec<i64>>,
    /// Exception text.
    pub text: Option<String>,
}

/// Body of the 'continued' event.
#[derive(Debug, Clone)]
pub struct ContinuedEventBody {
    /// Thread that continued.
    pub thread_id: i64,
    /// Whether all threads continued.
    pub all_threads_continued: bool,
}

/// Body of the 'output' event.
#[derive(Debug, Clone)]
pub struct OutputEventBody {
    /// Output category.
    pub category: Option<String>,
    /// Output text.
    pub output: String,
    /// Source location.
    pub source: Option<Source>,
    /// Line number.
    pub line: Option<i64>,
    /// Column number.
    pub column: Option<i64>,
}

/// Body of the 'terminated' event.
#[derive(Debug, Clone, Default)]
pub struct TerminatedEventBody {
    /// Whether to restart.
    pub restart: Option<serde_json::Value>,
}

/// Body of the 'exited' event.
#[derive(Debug, Clone)]
pub struct ExitedEventBody {
    /// Exit code.
    pub exit_code: i64,
}

/// Body of the 'thread' event.
#[derive(Debug, Clone)]
pub struct ThreadEventBody {
    /// Reason for the event.
    pub reason: String,
    /// Thread ID.
    pub thread_id: i64,
}

/// Body of the 'breakpoint' event.
#[derive(Debug, Clone)]
pub struct BreakpointEventBody {
    /// Reason for the event.
    pub reason: String,
    /// Updated breakpoint info.
    pub breakpoint: BreakpointInfo,
}

} // verus!
