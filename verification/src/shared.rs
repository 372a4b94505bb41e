//! Types exchanged between the guest runtime and the host when execution
//! stops at a debug break.

use vstd::prelude::*;

verus! {

/// Name of the host function the guest calls on a debug break.
pub const DEBUG_BREAK_FUNC_NAME: &'static str = "hl_dap_debug_break";

/// Why the guest stopped.
#[derive(Debug, Clone, Copy, PartialEq, Eq, Structural)]
pub enum DebugBreakReason {
    Entry,
    Breakpoint,
    Step,
    Pause,
    Exception,
}

/// A source location reported by the guest.
#[derive(Debug, Clone)]
pub struct DebugLocation {
    pub filename: String,
    pub function_name: Option<String>,
    pub line: u32,
    pub column: Option<u32>,
}

/// Mathematical model of a [`DebugLocation`].
pub struct LocationView {
    pub filename: Seq<char>,
    pub function_name: Option<Seq<char>>,
    pub line: u32,
    pub column: Option<u32>,
}

/// The view of an optional string.
pub open spec fn opt_view(s: Option<String>) -> Option<Seq<char>> {
    match s {
        Some(t) => Some(t@),
        None => None,
    }
}

impl View for DebugLocation {
    type V = LocationView;

    open spec fn view(&self) -> LocationView {
        LocationView {
            filename: self.filename@,
            function_name: opt_view(self.function_name),
            line: self.line,
            column: self.column,
        }
    }
}

/// A local variable visible in a stack frame.
#[derive(Debug, Clone)]
pub struct DebugVariable {
    pub name: String,
    pub value: String,
    pub value_type: Option<String>,
}

/// Mathematical model of a [`DebugVariable`].
pub struct VariableView {
    pub name: Seq<char>,
    pub value: Seq<char>,
    pub value_type: Option<Seq<char>>,
}

impl View for DebugVariable {
    type V = VariableView;

    open spec fn view(&self) -> VariableView {
        VariableView { name: self.name@, value: self.value@, value_type: opt_view(self.value_type) }
    }
}

/// A stack frame reported by the guest.
#[derive(Debug, Clone)]
pub struct DebugStackFrame {
    pub id: u32,
    pub name: String,
    pub location: DebugLocation,
    pub variables: Vec<DebugVariable>,
}

/// Mathematical model of a [`DebugStackFrame`].
pub struct StackFrameView {
    pub id: u32,
    pub name: Seq<char>,
    pub location: LocationView,
    pub variables: Seq<VariableView>,
}

impl View for DebugStackFrame {
    type V = StackFrameView;

    open spec fn view(&self) -> StackFrameView {
        StackFrameView {
            id: self.id,
            name: self.name@,
            location: self.location@,
            variables: self.variables@.map_values(|v: DebugVariable| v@),
        }
    }
}

/// The event the guest sends to the host when it stops.
#[derive(Debug, Clone)]
pub struct DebugBreakEvent {
    pub reason: DebugBreakReason,
    pub location: DebugLocation,
    pub stack_frames: Vec<DebugStackFrame>,
    pub exception_message: Option<String>,
}

/// Mathematical model of a [`DebugBreakEvent`].
pub struct BreakEventView {
    pub reason: DebugBreakReason,
    pub location: LocationView,
    pub stack_frames: Seq<StackFrameView>,
    pub exception_message: Option<Seq<char>>,
}

/// The view of a sequence of stack frames.
pub open spec fn stack_frames_view(frames: Seq<DebugStackFrame>) -> Seq<StackFrameView> {
    frames.map_values(|f: DebugStackFrame| f@)
}

impl View for DebugBreakEvent {
    type V = BreakEventView;

    open spec fn view(&self) -> BreakEventView {
        BreakEventView {
            reason: self.reason,
            location: self.location@,
            stack_frames: stack_frames_view(self.stack_frames@),
            exception_message: opt_view(self.exception_message),
        }
    }
}

/// A breakpoint as the host hands it to the guest.
#[derive(Debug, Clone)]
pub struct DebugBreakpoint {
    pub id: u32,
    pub filename: String,
    pub line: u32,
    pub enabled: bool,
}

/// Mathematical model of a [`DebugBreakpoint`].
pub struct BreakpointView {
    pub id: u32,
    pub filename: Seq<char>,
    pub line: u32,
    pub enabled: bool,
}

impl View for DebugBreakpoint {
    type V = BreakpointView;

    open spec fn view(&self) -> BreakpointView {
        BreakpointView {
            id: self.id,
            filename: self.filename@,
            line: self.line,
            enabled: self.enabled,
        }
    }
}

/// The view of a sequence of breakpoints.
pub open spec fn breakpoints_view(bps: Seq<DebugBreakpoint>) -> Seq<BreakpointView> {
    bps.map_values(|b: DebugBreakpoint| b@)
}

/// What the host tells the guest to do next.
#[derive(Debug, Clone, Copy, PartialEq, Eq, Structural)]
pub enum DebugActionType {
    Continue,
    StepInto,
    StepOver,
    StepOut,
    Disconnect,
}

/// The host's answer to a debug break: an action and the full breakpoint set.
#[derive(Debug, Clone)]
pub struct DebugAction {
    pub action: DebugActionType,
    pub breakpoints: Vec<DebugBreakpoint>,
}


/// Copies an optional string.
pub fn clone_opt_string(s: &Option<String>) -> (r: Option<String>)
    ensures
        opt_view(r) == opt_view(*s),
{
    match s {
        Some(t) => Some(t.clone()),
        None => None,
    }
}

/// Copies a location.
pub fn clone_location(l: &DebugLocation) -> (r: DebugLocation)
    ensures
        r@ == l@,
{
    DebugLocation {
        filename: l.filename.clone(),
        function_name: clone_opt_string(&l.function_name),
        line: l.line,
        column: l.column,
    }
}

} // verus!
