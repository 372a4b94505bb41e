//! Internal message types for DAP communication between the DAP server thread
//! and the Hyperlight VM.

use vstd::prelude::*;

use crate::shared::{opt_view, LocationView};

verus! {

broadcast use vstd::string::group_string_axioms;

/// Source location information reported by the guest runtime.
#[derive(Debug, Clone, Default)]
pub struct SourceLocation {
    /// The source file path or name.
    pub filename: String,
    /// The function name at this location (if available).
    pub function_name: Option<String>,
    /// Line number (1-based).
    pub line: u32,
    /// Column number (1-based, if available).
    pub column: Option<u32>,
}

impl View for SourceLocation {
    type V = LocationView;

    open spec fn view(&self) -> LocationView {
        LocationView {
            filename: self.filename@,
            function_name: opt_view(self.function_name),
            line: self.line,
            column: self.column,
        }
    }
}

impl SourceLocation {
    /// Creates a new source location with the given filename and line.
    pub fn new(filename: String, line: u32) -> (r: Self)
        ensures
            r@ == (LocationView { filename: filename@, function_name: None, line: line, column: None }),
    {
        SourceLocation { filename, function_name: None, line, column: None }
    }

    /// Sets the function name for this location.
    pub fn with_function(self, function_name: String) -> (r: Self)
        ensures
            r@ == (LocationView { function_name: Some(function_name@), ..self@ }),
    {
        let mut s = self;
        s.function_name = Some(function_name);
        s
    }

    /// Sets the column number for this location.
    pub fn with_column(self, column: u32) -> (r: Self)
        ensures
            r@ == (LocationView { column: Some(column), ..self@ }),
    {
        let mut s = self;
        s.column = Some(column);
        s
    }
}

/// Represents a stack frame in the call stack.
#[derive(Debug, Clone)]
pub struct StackFrame {
    /// Unique identifier for this frame.
    pub id: u32,
    /// Name of the frame (typically the function name).
    pub name: String,
    /// Source location of this frame.
    pub location: SourceLocation,
}

/// Mathematical model of a [`StackFrame`].
pub struct FrameSummary {
    pub id: u32,
    pub name: Seq<char>,
    pub location: LocationView,
}

impl View for StackFrame {
    type V = FrameSummary;

    open spec fn view(&self) -> FrameSummary {
        FrameSummary { id: self.id, name: self.name@, location: self.location@ }
    }
}

/// Represents a breakpoint that has been set.
#[derive(Debug, Clone)]
pub struct Breakpoint {
    /// Unique identifier for this breakpoint.
    pub id: u32,
    /// Whether the breakpoint was successfully set.
    pub verified: bool,
    /// The actual line where the breakpoint was set.
    pub line: u32,
    /// Optional message (e.g., why the breakpoint could not be verified).
    pub message: Option<String>,
}

/// Represents a scope (e.g., local variables, global variables).
#[derive(Debug, Clone)]
pub struct Scope {
    /// Display name of the scope.
    pub name: String,
    /// Reference ID for fetching variables in this scope.
    pub variables_reference: u32,
    /// Whether this scope's contents are expensive to retrieve.
    pub expensive: bool,
}

/// Represents a variable or property.
#[derive(Debug, Clone)]
pub struct Variable {
    /// Display name of the variable.
    pub name: String,
    /// Value as a string representation.
    pub value: String,
    /// Type of the variable (if known).
    pub value_type: Option<String>,
    /// Reference ID if this variable has children (0 if no children).
    pub variables_reference: u32,
}

/// Mathematical model of a [`Variable`].
pub struct VariableSummary {
    pub name: Seq<char>,
    pub value: Seq<char>,
    pub value_type: Option<Seq<char>>,
    pub variables_reference: u32,
}

impl View for Variable {
    type V = VariableSummary;

    open spec fn view(&self) -> VariableSummary {
        VariableSummary {
            name: self.name@,
            value: self.value@,
            value_type: opt_view(self.value_type),
            variables_reference: self.variables_reference,
        }
    }
}

/// Reason why execution stopped.
#[derive(Debug, Clone, Copy, PartialEq, Eq, Structural)]
pub enum StopReason {
    /// Stopped at entry point.
    Entry,
    /// Hit a breakpoint.
    Breakpoint,
    /// Completed a step operation.
    Step,
    /// Paused by user request.
    Pause,
    /// Exception or error occurred.
    Exception,
    /// Data breakpoint hit.
    DataBreakpoint,
    /// Function breakpoint hit.
    FunctionBreakpoint,
}

/// The DAP protocol string of a stop reason.
pub open spec fn stop_reason_text(r: StopReason) -> Seq<char> {
    match r {
        StopReason::Entry => "entry"@,
        StopReason::Breakpoint => "breakpoint"@,
        StopReason::Step => "step"@,
        StopReason::Pause => "pause"@,
        StopReason::Exception => "exception"@,
        StopReason::DataBreakpoint => "data breakpoint"@,
        StopReason::FunctionBreakpoint => "function breakpoint"@,
    }
}

impl StopReason {
    /// Returns the DAP protocol string for this stop reason.
    pub fn as_str(&self) -> (r: &'static str)
        ensures
            r@ == stop_reason_text(*self),
    {
        match self {
            StopReason::Entry => "entry",
            StopReason::Breakpoint => "breakpoint",
            StopReason::Step => "step",
            StopReason::Pause => "pause",
            StopReason::Exception => "exception",
            StopReason::DataBreakpoint => "data breakpoint",
            StopReason::FunctionBreakpoint => "function breakpoint",
        }
    }
}

/// Requests sent from the DAP server to the Hyperlight VM.
#[derive(Debug)]
pub enum DapRequest {
    /// Initialize the debug session.
    Initialize,
    /// Configure the debug session (called after initialize).
    ConfigurationDone,
    /// Set breakpoints in a source file.
    SetBreakpoints {
        /// Path to the source file.
        source_path: String,
        /// Line numbers where breakpoints should be set.
        lines: Vec<u32>,
    },
    /// Set function breakpoints.
    SetFunctionBreakpoints {
        /// Function names to break on.
        names: Vec<String>,
    },
    /// Continue execution.
    Continue,
    /// Step to next line (step over).
    Next,
    /// Step into function call.
    StepIn,
    /// Step out of current function.
    StepOut,
    /// Pause execution.
    Pause,
    /// Get the current call stack.
    StackTrace {
        /// Optional: starting frame.
        start_frame: Option<u32>,
        /// Optional: maximum number of frames to return.
        levels: Option<u32>,
    },
    /// Get scopes for a stack frame.
    Scopes {
        /// Frame ID to get scopes for.
        frame_id: u32,
    },
    /// Get variables in a scope or container.
    Variables {
        /// Reference ID of the scope or container.
        variables_reference: u32,
    },
    /// Evaluate an expression.
    Evaluate {
        /// Expression to evaluate.
        expression: String,
        /// Optional frame context for evaluation.
        frame_id: Option<u32>,
        /// Context of evaluation (watch, repl, hover).
        context: Option<String>,
    },
    /// Disconnect the debugger.
    Disconnect {
        /// Whether to terminate the debuggee.
        terminate: bool,
    },
}

/// Responses sent from the Hyperlight VM to the DAP server.
#[derive(Debug)]
pub enum DapResponse {
    /// Debug session initialized successfully.
    Initialized {
        /// Whether the runtime supports the configuration done request.
        supports_configuration_done: bool,
    },
    /// Configuration completed.
    ConfigurationDone,
    /// Breakpoints were set (or attempted to be set).
    BreakpointsSet {
        /// Results for each requested breakpoint.
        breakpoints: Vec<Breakpoint>,
    },
    /// Function breakpoints were set.
    FunctionBreakpointsSet {
        /// Results for each requested function breakpoint.
        breakpoints: Vec<Breakpoint>,
    },
    /// Execution has stopped.
    Stopped {
        /// Reason for stopping.
        reason: StopReason,
        /// Current source location.
        location: SourceLocation,
        /// Optional: IDs of the breakpoints that were hit.
        hit_breakpoint_ids: Option<Vec<u32>>,
        /// Optional: exception text if stopped due to an exception.
        exception_text: Option<String>,
    },
    /// Execution has continued.
    Continued,
    /// Execution has been paused.
    Paused,
    /// Stack trace response.
    StackTrace {
        /// Stack frames (most recent first).
        frames: Vec<StackFrame>,
        /// Total number of frames available.
        total_frames: u32,
    },
    /// Scopes for a stack frame.
    Scopes {
        /// Available scopes.
        scopes: Vec<Scope>,
    },
    /// Variables in a scope.
    Variables {
        /// Variables in the requested scope.
        variables: Vec<Variable>,
    },
    /// Result of expression evaluation.
    Evaluate {
        /// Result value as string.
        result: String,
        /// Type of the result.
        value_type: Option<String>,
        /// Reference if the result has children.
        variables_reference: u32,
    },
    /// Disconnected from debug session.
    Disconnected,
    /// An error occurred.
    Error {
        /// Error message.
        message: String,
    },
    /// Output from the guest (for console/stdout).
    Output {
        /// Output category (console, stdout, stderr).
        category: String,
        /// Output text.
        output: String,
        /// Optional source location.
        location: Option<SourceLocation>,
    },
    /// The debuggee has terminated.
    Terminated,
    /// The debuggee has exited.
    Exited {
        /// Exit code.
        exit_code: i32,
    },
}

} // verus!
