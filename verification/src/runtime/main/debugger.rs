//! Debugger state machine for the QuickJS guest.
//!
//! It tracks execution state, manages breakpoints, and exchanges a small JSON
//! format with the host debugger through the `hl_dap_debug_break` host
//! function: [`trace_event`] decides whether to stop and builds the event,
//! [`apply_host_response`] parses the host's answer and applies it.

use vstd::prelude::*;

use crate::text::{seq_contains, contains_str, split_on, sub_vec, string_from_chars, find_first, find_chars, find_from, seq_find, lemma_find_from_bounds, chars_of, dec_int, dec_digits, digit_char, owned, push_char, push_i64, push_str, push_u64};

verus! {

broadcast use vstd::string::group_string_axioms;

/// Host function name for debug break communication.
pub const DEBUG_BREAK_FUNC_NAME: &'static str = "hl_dap_debug_break";

/// Debugger execution mode.
#[derive(Debug, Clone, Copy, PartialEq, Eq, Structural)]
pub enum DebugMode {
    /// Normal execution, only stop at breakpoints.
    Running,
    /// Stop at the next operation (step into).
    Step,
    /// Stop at the next operation in the same or parent frame (step over).
    StepOver,
    /// Stop when returning to the parent frame (step out).
    StepOut,
    /// Debugger is paused (does not happen during execution).
    Paused,
}

/// Variable information.
#[derive(Debug, Clone)]
pub struct Variable {
    pub name: String,
    pub value: String,
    pub value_type: String,
}

/// Mathematical model of a [`Variable`].
pub struct VariableView {
    pub name: Seq<char>,
    pub value: Seq<char>,
    pub value_type: Seq<char>,
}

impl View for Variable {
    type V = VariableView;

    open spec fn view(&self) -> VariableView {
        VariableView { name: self.name@, value: self.value@, value_type: self.value_type@ }
    }
}

/// Current execution location.
#[derive(Debug, Clone)]
pub struct Location {
    pub filename: String,
    pub function: String,
    pub line: i32,
    pub column: i32,
}

/// Mathematical model of a [`Location`].
pub struct LocationView {
    pub filename: Seq<char>,
    pub function: Seq<char>,
    pub line: i32,
    pub column: i32,
}

impl View for Location {
    type V = LocationView;

    open spec fn view(&self) -> LocationView {
        LocationView {
            filename: self.filename@,
            function: self.function@,
            line: self.line,
            column: self.column,
        }
    }
}

/// A single stack frame.
#[derive(Debug, Clone)]
pub struct StackFrame {
    pub id: u32,
    pub name: String,
    pub location: Location,
    pub variables: Vec<Variable>,
}

/// Mathematical model of a [`StackFrame`].
pub struct StackFrameView {
    pub id: u32,
    pub name: Seq<char>,
    pub location: LocationView,
    pub variables: Seq<VariableView>,
}

impl View for StackFrame {
    type V = StackFrameView;

    open spec fn view(&self) -> StackFrameView {
        StackFrameView {
            id: self.id,
            name: self.name@,
            location: self.location@,
            variables: self.variables@.map_values(|v: Variable| v@),
        }
    }
}

/// A breakpoint identified by file and line.
#[derive(Debug, Clone, PartialEq, Eq, Hash)]
pub struct Breakpoint {
    pub filename: String,
    pub line: i32,
}

impl View for Breakpoint {
    type V = (Seq<char>, i32);

    open spec fn view(&self) -> (Seq<char>, i32) {
        (self.filename@, self.line)
    }
}

/// The reason why execution stopped.
#[derive(Debug, Clone, Copy, PartialEq, Eq, Structural)]
pub enum StopReason {
    Entry,
    /// Hit a breakpoint.
    Breakpoint,
    /// Completed a step operation.
    Step,
    /// Explicit debugger statement.
    Pause,
    /// An exception was raised.
    Exception,
}

/// The wire name of a stop reason.
pub open spec fn stop_reason_text(r: StopReason) -> Seq<char> {
    match r {
        StopReason::Entry => "entry"@,
        StopReason::Breakpoint => "breakpoint"@,
        StopReason::Step => "step"@,
        StopReason::Pause => "pause"@,
        StopReason::Exception => "exception"@,
    }
}

impl StopReason {
    /// The wire name of this stop reason.
    pub fn as_str(&self) -> (r: &'static str)
        ensures
            r@ == stop_reason_text(*self),
    {
        match self {
            StopReason::Entry => "entry",
            StopReason::Breakpoint => "breakpoint",
            StopReason::Step => "step",
            StopReason::Pause => "pause",
            StopReason::Exception => "exception",
        }
    }
}

/// Event sent to the host when execution stops.
#[derive(Debug)]
pub struct DebugBreakEvent {
    pub reason: StopReason,
    pub location: Location,
    pub stack_frames: Vec<StackFrame>,
}

/// Action type returned from the host.
#[derive(Debug, Clone, Copy, PartialEq, Eq, Structural)]
pub enum DebugActionType {
    Continue,
    StepOver,
    StepInto,
    StepOut,
    Pause,
    Disconnect,
}

/// Action returned from the host debugger.
#[derive(Debug)]
pub struct DebugAction {
    pub action: DebugActionType,
    pub breakpoints: Option<Vec<Breakpoint>>,
}

// ---------------------------------------------------------------------------
// JSON output
// ---------------------------------------------------------------------------

/// A control character (Unicode general category `Cc`).
pub open spec fn is_control(c: char) -> bool {
    (c as u32) <= 0x1f || (0x7f <= (c as u32) && (c as u32) <= 0x9f)
}

/// The lowercase hexadecimal digit for `d < 16`.
pub open spec fn hex_digit(d: nat) -> char {
    if d < 10 {
        digit_char(d)
    } else {
        (d + 87) as char
    }
}

/// How one character is written inside a JSON string.
pub open spec fn escape_char(c: char) -> Seq<char> {
    if c == '"' {
        seq!['\\', '"']
    } else if c == '\\' {
        seq!['\\', '\\']
    } else if c == '\n' {
        seq!['\\', 'n']
    } else if c == '\r' {
        seq!['\\', 'r']
    } else if c == '\t' {
        seq!['\\', 't']
    } else if is_control(c) {
        seq!['\\', 'u', '0', '0', hex_digit((c as u32 / 16) as nat), hex_digit((c as u32 % 16) as nat)]
    } else {
        seq![c]
    }
}

/// The JSON string body for `s`: every character escaped in turn.
pub open spec fn escape_json(s: Seq<char>) -> Seq<char>
    decreases s.len(),
{
    if s.len() == 0 {
        Seq::empty()
    } else {
        escape_json(s.drop_last()) + escape_char(s.last())
    }
}

fn control_char(c: char) -> (r: bool)
    ensures
        r == is_control(c),
{
    let v = c as u32;
    v <= 0x1f || (0x7f <= v && v <= 0x9f)
}

fn hex(d: u32) -> (c: char)
    requires
        d < 16,
    ensures
        c == hex_digit(d as nat),
{
    let b: u8 = if d < 10 {
        (d as u8) + 48
    } else {
        (d as u8) + 87
    };
    b as char
}

/// Escapes a string for JSON output.
pub fn escape_json_string(s: &str) -> (r: String)
    ensures
        r@ == escape_json(s@),
{
    let v = chars_of(s);
    let mut result = String::new();
    let mut i: usize = 0;
    while i < v.len()
        invariant
            i <= v.len(),
            v@ == s@,
            result@ == escape_json(v@.take(i as int)),
        decreases v.len() - i,
    {
        let c = v[i];
        let ghost before = result@;
        if c == '"' {
            push_char(&mut result, '\\');
            push_char(&mut result, '"');
        } else if c == '\\' {
            push_char(&mut result, '\\');
            push_char(&mut result, '\\');
        } else if c == '\n' {
            push_char(&mut result, '\\');
            push_char(&mut result, 'n');
        } else if c == '\r' {
            push_char(&mut result, '\\');
            push_char(&mut result, 'r');
        } else if c == '\t' {
            push_char(&mut result, '\\');
            push_char(&mut result, 't');
        } else if control_char(c) {
            let code = c as u32;
            push_char(&mut result, '\\');
            push_char(&mut result, 'u');
            push_char(&mut result, '0');
            push_char(&mut result, '0');
            push_char(&mut result, hex(code / 16));
            push_char(&mut result, hex(code % 16));
        } else {
            push_char(&mut result, c);
        }
        assert(result@ =~= before + escape_char(c));
        assert(v@.take(i + 1).drop_last() =~= v@.take(i as int));
        i = i + 1;
    }
    assert(v@.take(v.len() as int) =~= v@);
    result
}

/// `{"filename":"..","function":"..","line":N,"column":N}`.
pub open spec fn location_json(l: LocationView) -> Seq<char> {
    "{\"filename\":\""@ + escape_json(l.filename) + "\",\"function\":\""@ + escape_json(l.function)
        + "\",\"line\":"@ + dec_int(l.line as int) + ",\"column\":"@ + dec_int(l.column as int)
        + "}"@
}

/// `{"id":N,"name":"..","location":{..}}`.
pub open spec fn frame_json(f: StackFrameView) -> Seq<char> {
    "{\"id\":"@ + dec_digits(f.id as nat) + ",\"name\":\""@ + escape_json(f.name) + "\",\"location\":"@
        + location_json(f.location) + "}"@
}

/// The JSON of the frames, separated by commas.
pub open spec fn frames_json(fs: Seq<StackFrameView>) -> Seq<char>
    decreases fs.len(),
{
    if fs.len() == 0 {
        Seq::empty()
    } else if fs.len() == 1 {
        frame_json(fs[0])
    } else {
        frames_json(fs.drop_last()) + ","@ + frame_json(fs.last())
    }
}

/// `{"reason":"..","location":{..},"stack_frames":[..]}`.
pub open spec fn event_json(reason: StopReason, l: LocationView, fs: Seq<StackFrameView>) -> Seq<char> {
    "{\"reason\":\""@ + stop_reason_text(reason) + "\",\"location\":"@ + location_json(l)
        + ",\"stack_frames\":["@ + frames_json(fs) + "]}"@
}

/// The view of a sequence of frames.
pub open spec fn frames_view(fs: Seq<StackFrame>) -> Seq<StackFrameView> {
    fs.map_values(|f: StackFrame| f@)
}

impl Location {
    /// Writes this location as JSON.
    pub fn to_json(&self) -> (r: String)
        ensures
            r@ == location_json(self@),
    {
        let mut s = String::new();
        push_str(&mut s, "{\"filename\":\"");
        let f = escape_json_string(self.filename.as_str());
        push_str(&mut s, f.as_str());
        push_str(&mut s, "\",\"function\":\"");
        let g = escape_json_string(self.function.as_str());
        push_str(&mut s, g.as_str());
        push_str(&mut s, "\",\"line\":");
        push_i64(&mut s, self.line as i64);
        push_str(&mut s, ",\"column\":");
        push_i64(&mut s, self.column as i64);
        push_str(&mut s, "}");
        assert(s@ =~= location_json(self@));
        s
    }
}

impl StackFrame {
    /// Writes this frame (without its variables) as JSON.
    pub fn to_json(&self) -> (r: String)
        ensures
            r@ == frame_json(self@),
    {
        let mut s = String::new();
        push_str(&mut s, "{\"id\":");
        push_u64(&mut s, self.id as u64);
        push_str(&mut s, ",\"name\":\"");
        let n = escape_json_string(self.name.as_str());
        push_str(&mut s, n.as_str());
        push_str(&mut s, "\",\"location\":");
        let l = self.location.to_json();
        push_str(&mut s, l.as_str());
        push_str(&mut s, "}");
        assert(s@ =~= frame_json(self@));
        s
    }
}

impl DebugBreakEvent {
    /// Writes this event as JSON.
    pub fn to_json(&self) -> (r: String)
        ensures
            r@ == event_json(self.reason, self.location@, frames_view(self.stack_frames@)),
    {
        let mut frames = String::new();
        let mut i: usize = 0;
        while i < self.stack_frames.len()
            invariant
                i <= self.stack_frames.len(),
                frames@ == frames_json(frames_view(self.stack_frames@).take(i as int)),
            decreases self.stack_frames.len() - i,
        {
            let ghost fs = frames_view(self.stack_frames@);
            if i > 0 {
                push_str(&mut frames, ",");
            }
            let f = self.stack_frames[i].to_json();
            push_str(&mut frames, f.as_str());
            assert(fs.take(i + 1).drop_last() =~= fs.take(i as int));
            i = i + 1;
        }
        assert(frames_view(self.stack_frames@).take(self.stack_frames.len() as int) =~= frames_view(
            self.stack_frames@,
        ));
        let mut s = String::new();
        push_str(&mut s, "{\"reason\":\"");
        push_str(&mut s, self.reason.as_str());
        push_str(&mut s, "\",\"location\":");
        let l = self.location.to_json();
        push_str(&mut s, l.as_str());
        push_str(&mut s, ",\"stack_frames\":[");
        push_str(&mut s, frames.as_str());
        push_str(&mut s, "]}");
        assert(s@ =~= event_json(self.reason, self.location@, frames_view(self.stack_frames@)));
        s
    }
}


// ---------------------------------------------------------------------------
// Breakpoint set
// ---------------------------------------------------------------------------

/// The set of active breakpoints, held in a `hashbrown::HashSet`.
#[verifier::external_body]
pub struct BreakpointSet {
    inner: hashbrown::HashSet<Breakpoint>,
}

/// The `(filename, line)` pairs a [`BreakpointSet`] holds.
pub uninterp spec fn breakpoint_set_items(s: BreakpointSet) -> Set<(Seq<char>, i32)>;

impl BreakpointSet {
    /// An empty set (`HashSet::new`).
    #[verifier::external_body]
    pub(crate) fn new() -> (r: BreakpointSet)
        ensures
            breakpoint_set_items(r) == Set::<(Seq<char>, i32)>::empty(),
    {
        BreakpointSet { inner: hashbrown::HashSet::new() }
    }

    /// Removes every breakpoint (`HashSet::clear`).
    #[verifier::external_body]
    pub(crate) fn clear(&mut self)
        ensures
            breakpoint_set_items(*final(self)) == Set::<(Seq<char>, i32)>::empty(),
    {
        self.inner.clear();
    }

    /// Adds a breakpoint (`HashSet::insert`); an equal one already present is
    /// kept.
    #[verifier::external_body]
    pub(crate) fn insert(&mut self, bp: Breakpoint)
        ensures
            breakpoint_set_items(*final(self)) == breakpoint_set_items(*old(self)).insert(bp@),
    {
        self.inner.insert(bp);
    }

    /// Drops the breakpoint at `line` of `filename` (`HashSet::retain` with
    /// a predicate that rejects exactly that breakpoint).
    #[verifier::external_body]
    pub(crate) fn remove_at(&mut self, filename: &str, line: i32)
        ensures
            breakpoint_set_items(*final(self)) == breakpoint_set_items(*old(self)).remove(
                (filename@, line),
            ),
    {
        self.inner.retain(|bp| is_other_breakpoint(bp, filename, line));
    }

    /// The breakpoints, each once, in the set's iteration order
    /// (`HashSet::iter`, each item cloned).
    #[verifier::external_body]
    pub(crate) fn to_vec(&self) -> (r: Vec<Breakpoint>)
        ensures
            r@.map_values(|b: Breakpoint| b@).to_set() == breakpoint_set_items(*self),
            r@.map_values(|b: Breakpoint| b@).no_duplicates(),
    {
        self.inner.iter().cloned().collect()
    }
}

/// Copies a breakpoint.
pub fn clone_breakpoint(bp: &Breakpoint) -> (r: Breakpoint)
    ensures
        r@ == bp@,
{
    Breakpoint { filename: bp.filename.clone(), line: bp.line }
}

/// Whether `bp` is another breakpoint than the one at `line` of
/// `filename`.
pub fn is_other_breakpoint(bp: &Breakpoint, filename: &str, line: i32) -> (r: bool)
    ensures
        r == (bp@ != (filename@, line)),
{
    !(bp.line == line && crate::text::str_eq(bp.filename.as_str(), filename))
}


// ---------------------------------------------------------------------------
// Paths
// ---------------------------------------------------------------------------

/// `\` written as `/`.
pub open spec fn slash(c: char) -> char {
    if c == '\\' {
        '/'
    } else {
        c
    }
}

/// A path with backslashes turned into slashes and one leading `./` removed.
pub open spec fn spec_normalize_path(p: Seq<char>) -> Seq<char> {
    let r = p.map_values(|c: char| slash(c));
    if r.len() >= 2 && r[0] == '.' && r[1] == '/' {
        r.skip(2)
    } else {
        r
    }
}

/// Normalizes a file path for comparison.
pub fn normalize_path(path: &str) -> (r: String)
    ensures
        r@ == spec_normalize_path(path@),
{
    let v = chars_of(path);
    let mut w: Vec<char> = Vec::new();
    let mut i: usize = 0;
    while i < v.len()
        invariant
            i <= v.len(),
            w@ == v@.take(i as int).map_values(|c: char| slash(c)),
        decreases v.len() - i,
    {
        let c = v[i];
        w.push(if c == '\\' { '/' } else { c });
        assert(v@.take(i + 1).map_values(|c: char| slash(c)) =~= v@.take(i as int).map_values(
            |c: char| slash(c),
        ).push(slash(c)));
        i = i + 1;
    }
    assert(v@.take(v.len() as int) =~= v@);
    if w.len() >= 2 && w[0] == '.' && w[1] == '/' {
        crate::text::string_from_range(&w, 2, w.len())
    } else {
        crate::text::string_from_chars(&w)
    }
}

// ---------------------------------------------------------------------------
// State machine
// ---------------------------------------------------------------------------

/// Global debugger state.
pub struct DebuggerState {
    /// Whether the debugger is enabled.
    pub enabled: bool,
    /// Current execution mode.
    pub mode: DebugMode,
    /// Set of active breakpoints.
    pub breakpoints: BreakpointSet,
    /// Current call stack.
    pub call_stack: Vec<StackFrame>,
    /// Stack depth when step over/out was initiated.
    pub step_depth: usize,
    /// Whether this is the first operation (for the entry breakpoint).
    pub first_op: bool,
    /// Stop at the entry point.
    pub stop_on_entry: bool,
    /// Last seen line number (to avoid duplicate breaks on the same line).
    pub last_line: Option<i32>,
    /// Last seen filename.
    pub last_file: Option<String>,
    /// Current function name being executed.
    pub current_function: Option<String>,
}

/// Mathematical model of a [`DebuggerState`].
pub struct StateView {
    pub enabled: bool,
    pub mode: DebugMode,
    pub breakpoints: Set<(Seq<char>, i32)>,
    pub call_stack: Seq<StackFrameView>,
    pub step_depth: nat,
    pub first_op: bool,
    pub stop_on_entry: bool,
    pub last_line: Option<i32>,
    pub last_file: Option<Seq<char>>,
    pub current_function: Option<Seq<char>>,
}

impl View for DebuggerState {
    type V = StateView;

    open spec fn view(&self) -> StateView {
        StateView {
            enabled: self.enabled,
            mode: self.mode,
            breakpoints: breakpoint_set_items(self.breakpoints),
            call_stack: frames_view(self.call_stack@),
            step_depth: self.step_depth as nat,
            first_op: self.first_op,
            stop_on_entry: self.stop_on_entry,
            last_line: self.last_line,
            last_file: crate::shared::opt_view(self.last_file),
            current_function: crate::shared::opt_view(self.current_function),
        }
    }
}

/// A fresh state: disabled, running, no breakpoints, empty call stack, at
/// the first operation.
pub open spec fn initial_state() -> StateView {
    StateView {
        enabled: false,
        mode: DebugMode::Running,
        breakpoints: Set::empty(),
        call_stack: Seq::empty(),
        step_depth: 0,
        first_op: true,
        stop_on_entry: false,
        last_line: None,
        last_file: None,
        current_function: None,
    }
}

impl Default for DebuggerState {
    fn default() -> (r: Self)
        ensures
            r@ == initial_state(),
    {
        let r = DebuggerState {
            enabled: false,
            mode: DebugMode::Running,
            breakpoints: BreakpointSet::new(),
            call_stack: Vec::new(),
            step_depth: 0,
            first_op: true,
            stop_on_entry: false,
            last_line: None,
            last_file: None,
            current_function: None,
        };
        assert(frames_view(r.call_stack@) =~= Seq::empty());
        r
    }
}

/// Some breakpoint sits at `line` of a file whose normalized path equals that
/// of `filename`.
pub open spec fn spec_has_breakpoint(bps: Set<(Seq<char>, i32)>, filename: Seq<char>, line: i32) -> bool {
    exists|b: (Seq<char>, i32)|
        #![trigger bps.contains(b)]
        bps.contains(b) && spec_normalize_path(b.0) == spec_normalize_path(filename) && b.1 == line
}

/// Whether, and why, execution stops at `line` of `filename` in `funcname`.
pub open spec fn spec_should_break(
    s: StateView,
    filename: Seq<char>,
    line: i32,
    funcname: Seq<char>,
) -> Option<StopReason> {
    if s.first_op && s.stop_on_entry {
        Some(StopReason::Entry)
    } else {
        let line_changed = s.last_line != Some(line) || s.last_file != Some(filename);
        let function_changed = s.current_function != Some(funcname);
        let hit = spec_has_breakpoint(s.breakpoints, filename, line);
        match s.mode {
            DebugMode::Running => if line_changed && hit {
                Some(StopReason::Breakpoint)
            } else {
                None
            },
            DebugMode::Step => if line_changed || function_changed {
                Some(StopReason::Step)
            } else {
                None
            },
            DebugMode::StepOver => if s.call_stack.len() <= s.step_depth {
                if line_changed {
                    Some(StopReason::Step)
                } else {
                    None
                }
            } else if hit {
                Some(StopReason::Breakpoint)
            } else {
                None
            },
            DebugMode::StepOut => if s.call_stack.len() < s.step_depth {
                Some(StopReason::Step)
            } else if hit {
                Some(StopReason::Breakpoint)
            } else {
                None
            },
            DebugMode::Paused => None,
        }
    }
}

/// The stack with its top frame moved to the given location.
pub open spec fn retarget_top(stack: Seq<StackFrameView>, filename: Seq<char>, line: i32, col: i32) -> Seq<StackFrameView> {
    if stack.len() == 0 {
        stack
    } else {
        stack.update(
            stack.len() - 1,
            StackFrameView {
                location: LocationView {
                    filename: filename,
                    line: line,
                    column: col,
                    ..stack.last().location
                },
                ..stack.last()
            },
        )
    }
}

/// The frame pushed when execution enters `funcname` at stack depth `depth`.
pub open spec fn entered_frame(depth: nat, filename: Seq<char>, funcname: Seq<char>, line: i32, col: i32) -> StackFrameView {
    StackFrameView {
        id: depth as u32,
        name: funcname,
        location: LocationView { filename: filename, function: funcname, line: line, column: col },
        variables: Seq::empty(),
    }
}

/// Call-stack tracking by function-name transitions: the same function moves
/// the top frame; returning to the parent's name pops and moves the parent;
/// any other name pushes a new frame.
pub open spec fn spec_update_call_stack(
    s: StateView,
    filename: Seq<char>,
    funcname: Seq<char>,
    line: i32,
    col: i32,
) -> StateView {
    if s.current_function == Some(funcname) {
        StateView { call_stack: retarget_top(s.call_stack, filename, line, col), ..s }
    } else if s.call_stack.len() >= 2 && s.call_stack[s.call_stack.len() - 2].name == funcname {
        StateView {
            call_stack: retarget_top(s.call_stack.drop_last(), filename, line, col),
            current_function: Some(funcname),
            ..s
        }
    } else {
        StateView {
            call_stack: s.call_stack.push(entered_frame(s.call_stack.len(), filename, funcname, line, col)),
            current_function: Some(funcname),
            ..s
        }
    }
}

/// The state after a host action: a given breakpoint list replaces the set,
/// and the mode follows the action.
pub open spec fn spec_handle_action(
    s: StateView,
    action: DebugActionType,
    bps: Option<Seq<(Seq<char>, i32)>>,
) -> StateView {
    let s1 = match bps {
        Some(b) => StateView { breakpoints: b.to_set(), ..s },
        None => s,
    };
    match action {
        DebugActionType::Continue => StateView { mode: DebugMode::Running, ..s1 },
        DebugActionType::StepInto => StateView { mode: DebugMode::Step, ..s1 },
        DebugActionType::StepOver => StateView {
            mode: DebugMode::StepOver,
            step_depth: s.call_stack.len(),
            ..s1
        },
        DebugActionType::StepOut => StateView {
            mode: DebugMode::StepOut,
            step_depth: s.call_stack.len(),
            ..s1
        },
        DebugActionType::Pause => StateView { mode: DebugMode::Running, ..s1 },
        DebugActionType::Disconnect => StateView {
            enabled: false,
            mode: DebugMode::Running,
            ..s1
        },
    }
}

/// The view of an action's breakpoint list.
pub open spec fn action_breakpoints(a: &DebugAction) -> Option<Seq<(Seq<char>, i32)>> {
    match a.breakpoints {
        Some(v) => Some(v@.map_values(|b: Breakpoint| b@)),
        None => None,
    }
}

impl DebuggerState {
    /// Checks whether a breakpoint sits at the given location.
    pub fn has_breakpoint(&self, filename: &str, line: i32) -> (r: bool)
        ensures
            r == spec_has_breakpoint(self@.breakpoints, filename@, line),
    {
        let normalized = normalize_path(filename);
        let items = self.breakpoints.to_vec();
        let ghost iv = items@.map_values(|b: Breakpoint| b@);
        let mut i: usize = 0;
        while i < items.len()
            invariant
                i <= items.len(),
                iv == items@.map_values(|b: Breakpoint| b@),
                iv.to_set() == self@.breakpoints,
                normalized@ == spec_normalize_path(filename@),
                forall|j: int|
                    0 <= j < i ==> !(spec_normalize_path(#[trigger] iv[j].0) == normalized@ && iv[j].1
                        == line),
            decreases items.len() - i,
        {
            let bp = &items[i];
            let bn = normalize_path(bp.filename.as_str());
            if crate::text::str_eq(bn.as_str(), normalized.as_str()) && bp.line == line {
                assert(iv.contains(iv[i as int]));
                assert(self@.breakpoints.contains(iv[i as int]));
                return true;
            }
            i = i + 1;
        }
        assert forall|b: (Seq<char>, i32)| self@.breakpoints.contains(b) implies !(
        spec_normalize_path(b.0) == spec_normalize_path(filename@) && b.1 == line) by {
            assert(iv.contains(b));
        }
        false
    }

    /// Checks whether execution should stop at the current location.
    pub fn should_break(&self, filename: &str, line: i32, funcname: &str) -> (r: Option<StopReason>)
        ensures
            r == spec_should_break(self@, filename@, line, funcname@),
    {
        if self.first_op && self.stop_on_entry {
            return Some(StopReason::Entry);
        }
        let same_line = match self.last_line {
            Some(l) => l == line,
            None => false,
        };
        let line_changed = !same_line || !crate::text::opt_str_is(&self.last_file, filename);
        let function_changed = !crate::text::opt_str_is(&self.current_function, funcname);
        match self.mode {
            DebugMode::Running => {
                if line_changed && self.has_breakpoint(filename, line) {
                    Some(StopReason::Breakpoint)
                } else {
                    None
                }
            },
            DebugMode::Step => {
                if line_changed || function_changed {
                    Some(StopReason::Step)
                } else {
                    None
                }
            },
            DebugMode::StepOver => {
                if self.call_stack.len() <= self.step_depth {
                    if line_changed {
                        Some(StopReason::Step)
                    } else {
                        None
                    }
                } else if self.has_breakpoint(filename, line) {
                    Some(StopReason::Breakpoint)
                } else {
                    None
                }
            },
            DebugMode::StepOut => {
                if self.call_stack.len() < self.step_depth {
                    Some(StopReason::Step)
                } else if self.has_breakpoint(filename, line) {
                    Some(StopReason::Breakpoint)
                } else {
                    None
                }
            },
            DebugMode::Paused => None,
        }
    }

    fn retarget_top_frame(&mut self, filename: &str, line: i32, col: i32)
        ensures
            final(self)@ == (StateView {
                call_stack: retarget_top(old(self)@.call_stack, filename@, line, col),
                ..old(self)@
            }),
    {
        let ghost old_stack = self.call_stack@;
        if let Some(mut frame) = self.call_stack.pop() {
            frame.location.line = line;
            frame.location.column = col;
            frame.location.filename = owned(filename);
            self.call_stack.push(frame);
            assert(frames_view(self.call_stack@) =~= retarget_top(frames_view(old_stack), filename@, line, col));
        }
    }

    /// Updates the call stack from function-name changes: returning to the
    /// parent frame's function pops the current frame, any other change
    /// pushes a new one.
    pub fn update_call_stack(&mut self, filename: &str, funcname: &str, line: i32, col: i32)
        ensures
            final(self)@ == spec_update_call_stack(old(self)@, filename@, funcname@, line, col),
    {
        let function_changed = !crate::text::opt_str_is(&self.current_function, funcname);
        if !function_changed {
            self.retarget_top_frame(filename, line, col);
            return;
        }
        let stack_len = self.call_stack.len();
        let is_return = stack_len >= 2 && crate::text::str_eq(
            self.call_stack[stack_len - 2].name.as_str(),
            funcname,
        );
        if is_return {
            let ghost before = self.call_stack@;
            self.call_stack.pop();
            assert(frames_view(self.call_stack@) =~= frames_view(before).drop_last());
            self.retarget_top_frame(filename, line, col);
        } else {
            let ghost before = self.call_stack@;
            let new_frame = StackFrame {
                id: self.call_stack.len() as u32,
                name: owned(funcname),
                location: Location {
                    filename: owned(filename),
                    function: owned(funcname),
                    line,
                    column: col,
                },
                variables: Vec::new(),
            };
            assert(new_frame.variables@.map_values(|v: Variable| v@) =~= Seq::empty());
            self.call_stack.push(new_frame);
            assert(frames_view(self.call_stack@) =~= frames_view(before).push(
                entered_frame(before.len(), filename@, funcname@, line, col),
            ));
        }
        self.current_function = Some(owned(funcname));
    }

    /// Replaces the breakpoint set with `breakpoints`, if given.
    fn replace_breakpoints(&mut self, breakpoints: Option<Vec<Breakpoint>>)
        ensures
            final(self)@ == (match breakpoints {
                Some(v) => StateView { breakpoints: v@.map_values(|b: Breakpoint| b@).to_set(), ..old(self)@ },
                None => old(self)@,
            }),
    {
        if let Some(breakpoints) = breakpoints {
            self.breakpoints.clear();
            let ghost bv = breakpoints@.map_values(|b: Breakpoint| b@);
            let mut i: usize = 0;
            while i < breakpoints.len()
                invariant
                    i <= breakpoints.len(),
                    bv == breakpoints@.map_values(|b: Breakpoint| b@),
                    breakpoint_set_items(self.breakpoints) == bv.take(i as int).to_set(),
                    (StateView { breakpoints: Set::empty(), ..self@ }) == (StateView {
                        breakpoints: Set::empty(),
                        ..old(self)@
                    }),
                decreases breakpoints.len() - i,
            {
                self.breakpoints.insert(clone_breakpoint(&breakpoints[i]));
                assert(bv.take(i + 1) =~= bv.take(i as int).push(bv[i as int]));
                proof {
                    bv.take(i as int).lemma_push_to_set_commute(bv[i as int]);
                }
                i = i + 1;
            }
            assert(bv.take(breakpoints.len() as int) =~= bv);
        }
    }

    /// Handles a debug action from the host.
    pub fn handle_action(&mut self, action: DebugAction)
        ensures
            final(self)@ == spec_handle_action(old(self)@, action.action, action_breakpoints(&action)),
    {
        self.replace_breakpoints(action.breakpoints);
        match action.action {
            DebugActionType::Continue => {
                self.mode = DebugMode::Running;
            },
            DebugActionType::StepInto => {
                self.mode = DebugMode::Step;
            },
            DebugActionType::StepOver => {
                self.mode = DebugMode::StepOver;
                self.step_depth = self.call_stack.len();
            },
            DebugActionType::StepOut => {
                self.mode = DebugMode::StepOut;
                self.step_depth = self.call_stack.len();
            },
            DebugActionType::Pause => {
                // Pause cannot be honoured: commands only arrive while execution
                // is already stopped, so it continues.
                self.mode = DebugMode::Running;
            },
            DebugActionType::Disconnect => {
                self.enabled = false;
                self.mode = DebugMode::Running;
            },
        }
    }
}


// ---------------------------------------------------------------------------
// JSON input
// ---------------------------------------------------------------------------

/// The character an escape `\c` stands for; unknown escapes are kept as
/// written.
pub open spec fn unescape_pair(c: char) -> Seq<char> {
    if c == '"' {
        seq!['"']
    } else if c == '\\' {
        seq!['\\']
    } else if c == 'n' {
        seq!['\n']
    } else if c == 'r' {
        seq!['\r']
    } else if c == 't' {
        seq!['\t']
    } else {
        seq!['\\', c]
    }
}

/// The decoded string body up to its closing quote, or `None` when the text
/// ends first.
pub open spec fn read_string_body(s: Seq<char>) -> Option<Seq<char>>
    decreases s.len(),
{
    if s.len() == 0 {
        None
    } else if s[0] == '"' {
        Some(Seq::empty())
    } else if s[0] == '\\' {
        if s.len() < 2 {
            None
        } else {
            match read_string_body(s.skip(2)) {
                Some(r) => Some(unescape_pair(s[1]) + r),
                None => None,
            }
        }
    } else {
        match read_string_body(s.skip(1)) {
            Some(r) => Some(seq![s[0]] + r),
            None => None,
        }
    }
}

/// `"key":"`.
pub open spec fn string_key(key: Seq<char>) -> Seq<char> {
    seq!['"'] + key + seq!['"', ':', '"']
}

/// `"key":`.
pub open spec fn number_key(key: Seq<char>) -> Seq<char> {
    seq!['"'] + key + seq!['"', ':']
}

/// The string value after the first `"key":"` in `json`.
pub open spec fn spec_extract_json_string(json: Seq<char>, key: Seq<char>) -> Option<Seq<char>> {
    match seq_find(json, string_key(key)) {
        Some(i) => read_string_body(json.skip(i + string_key(key).len())),
        None => None,
    }
}

/// An ASCII decimal digit.
pub open spec fn is_ascii_digit(c: char) -> bool {
    '0' <= c && c <= '9'
}

/// The leading ASCII digits of `s`.
pub open spec fn digit_prefix(s: Seq<char>) -> Seq<char>
    decreases s.len(),
{
    if s.len() > 0 && is_ascii_digit(s[0]) {
        seq![s[0]] + digit_prefix(s.skip(1))
    } else {
        Seq::empty()
    }
}

/// The value of a string of decimal digits.
pub open spec fn digits_value(d: Seq<char>) -> nat
    decreases d.len(),
{
    if d.len() == 0 {
        0
    } else {
        digits_value(d.drop_last()) * 10 + ((d.last() as int) - 48) as nat
    }
}

/// `u32::from_str` on a string of decimal digits: empty or too large fails.
pub open spec fn parse_u32_digits(d: Seq<char>) -> Option<u32> {
    if d.len() == 0 {
        None
    } else if digits_value(d) <= u32::MAX {
        Some(digits_value(d) as u32)
    } else {
        None
    }
}

/// The number after the first `"key":` in `json`.
pub open spec fn spec_extract_json_number(json: Seq<char>, key: Seq<char>) -> Option<u32> {
    match seq_find(json, number_key(key)) {
        Some(i) => parse_u32_digits(digit_prefix(json.skip(i + number_key(key).len()))),
        None => None,
    }
}

fn key_pattern(key: &str, string_value: bool) -> (r: Vec<char>)
    ensures
        r@ == if string_value {
            string_key(key@)
        } else {
            number_key(key@)
        },
{
    let k = chars_of(key);
    let mut p: Vec<char> = Vec::new();
    p.push('"');
    let mut i: usize = 0;
    while i < k.len()
        invariant
            i <= k.len(),
            p@ == seq!['"'] + k@.take(i as int),
        decreases k.len() - i,
    {
        p.push(k[i]);
        assert(k@.take(i + 1) =~= k@.take(i as int).push(k@[i as int]));
        i = i + 1;
    }
    assert(k@.take(k.len() as int) =~= k@);
    p.push('"');
    p.push(':');
    if string_value {
        p.push('"');
    }
    assert(p@ =~= if string_value {
        string_key(key@)
    } else {
        number_key(key@)
    });
    p
}

/// Extracts a string value from a JSON object: the first `"key":"` is
/// located and its body decoded up to the closing quote (`\"`, `\\`, `\n`,
/// `\r` and `\t` are decoded, other escapes kept as written).
pub fn extract_json_string(json: &str, key: &str) -> (r: Option<String>)
    ensures
        crate::shared::opt_view(r) == spec_extract_json_string(json@, key@),
{
    let v = chars_of(json);
    let pattern = key_pattern(key, true);
    let start = match find_first(&v, &pattern) {
        Some(s) => s,
        None => return None,
    };
    assert(start + pattern.len() <= v.len());
    let mut j: usize = start + pattern.len();
    let ghost body = v@.skip(j as int);
    let mut result = String::new();
    assert(v@.skip(j as int) =~= body);
    while j < v.len()
        invariant
            start + pattern.len() <= j <= v.len(),
            body == v@.skip(start + pattern.len()),
            v@ == json@,
            pattern@ == string_key(key@),
            seq_find(json@, string_key(key@)) == Some(start as int),
            match read_string_body(v@.skip(j as int)) {
                Some(r) => read_string_body(body) == Some(result@ + r),
                None => read_string_body(body) is None,
            },
        decreases v.len() - j,
    {
        let c = v[j];
        let ghost rest = v@.skip(j as int);
        assert(rest[0] == c);
        if c == '"' {
            assert(read_string_body(rest) == Some(Seq::<char>::empty()));
            assert(result@ + Seq::<char>::empty() =~= result@);
            assert(read_string_body(body) == Some(result@));
            return Some(result);
        } else if c == '\\' {
            if j + 1 < v.len() {
                let next = v[j + 1];
                let ghost before = result@;
                if next == '"' {
                    push_char(&mut result, '"');
                } else if next == '\\' {
                    push_char(&mut result, '\\');
                } else if next == 'n' {
                    push_char(&mut result, '\n');
                } else if next == 'r' {
                    push_char(&mut result, '\r');
                } else if next == 't' {
                    push_char(&mut result, '\t');
                } else {
                    push_char(&mut result, '\\');
                    push_char(&mut result, next);
                }
                assert(result@ =~= before + unescape_pair(next));
                assert(rest.skip(2) =~= v@.skip(j + 2));
                proof {
                    match read_string_body(v@.skip(j + 2)) {
                        Some(r) => {
                            assert(before + (unescape_pair(next) + r) =~= result@ + r);
                        },
                        None => {},
                    }
                }
                j = j + 2;
            } else {
                assert(rest.len() == 1);
                return None;
            }
        } else {
            let ghost before = result@;
            push_char(&mut result, c);
            assert(rest.skip(1) =~= v@.skip(j + 1));
            proof {
                match read_string_body(v@.skip(j + 1)) {
                    Some(r) => {
                        assert(before + (seq![c] + r) =~= result@ + r);
                    },
                    None => {},
                }
            }
            j = j + 1;
        }
    }
    assert(v@.skip(j as int).len() == 0);
    None
}

proof fn lemma_digits_value_push(d: Seq<char>, c: char)
    ensures
        digits_value(d.push(c)) == digits_value(d) * 10 + ((c as int) - 48) as nat,
{
    assert(d.push(c).drop_last() =~= d);
}

/// Extracts an unsigned number from a JSON object: the ASCII digits right
/// after the first `"key":`, parsed as a `u32`.
pub fn extract_json_number(json: &str, key: &str) -> (r: Option<u32>)
    ensures
        r == spec_extract_json_number(json@, key@),
{
    let v = chars_of(json);
    let pattern = key_pattern(key, false);
    let start = match find_first(&v, &pattern) {
        Some(s) => s,
        None => return None,
    };
    assert(start + pattern.len() <= v.len());
    let first = start + pattern.len();
    let ghost tail = v@.skip(first as int);
    let mut j = first;
    let mut acc: u64 = 0;
    let mut over = false;
    assert(v@.subrange(first as int, first as int) =~= Seq::<char>::empty());
    assert(v@.skip(first as int) =~= tail);
    while j < v.len() && '0' <= v[j] && v[j] <= '9'
        invariant
            first <= j <= v.len(),
            tail == v@.skip(first as int),
            digit_prefix(tail) == v@.subrange(first as int, j as int) + digit_prefix(v@.skip(j as int)),
            over ==> digits_value(v@.subrange(first as int, j as int)) > u32::MAX,
            !over ==> acc == digits_value(v@.subrange(first as int, j as int)) && acc <= u32::MAX,
        decreases v.len() - j,
    {
        let c = v[j];
        let ghost done = v@.subrange(first as int, j as int);
        proof {
            lemma_digits_value_push(done, c);
            assert(v@.subrange(first as int, j + 1) =~= done.push(c));
            assert(v@.skip(j as int).skip(1) =~= v@.skip(j + 1));
            assert(done + digit_prefix(v@.skip(j as int)) =~= v@.subrange(first as int, j + 1)
                + digit_prefix(v@.skip(j + 1)));
        }
        if !over {
            let d = (c as u32 - 48) as u64;
            acc = acc * 10 + d;
            if acc > 0xffff_ffff {
                over = true;
            }
        }
        j = j + 1;
    }
    assert(digit_prefix(v@.skip(j as int)) =~= Seq::<char>::empty());
    assert(digit_prefix(tail) =~= v@.subrange(first as int, j as int));
    if j == first || over {
        None
    } else {
        Some(acc as u32)
    }
}


/// The action named in the host's answer; unknown or missing actions
/// continue.
pub open spec fn spec_action_type(j: Seq<char>) -> DebugActionType {
    if seq_contains(j, "\"action\":\"continue\""@) {
        DebugActionType::Continue
    } else if seq_contains(j, "\"action\":\"StepInto\""@) || seq_contains(j, "\"action\":\"Step\""@) {
        DebugActionType::StepInto
    } else if seq_contains(j, "\"action\":\"StepOver\""@) || seq_contains(j, "\"action\":\"Next\""@) {
        DebugActionType::StepOver
    } else if seq_contains(j, "\"action\":\"StepOut\""@) {
        DebugActionType::StepOut
    } else if seq_contains(j, "\"action\":\"Pause\""@) {
        DebugActionType::Pause
    } else if seq_contains(j, "\"action\":\"Disconnect\""@) {
        DebugActionType::Disconnect
    } else {
        DebugActionType::Continue
    }
}

/// The breakpoint an object text describes, when it has both a `filename`
/// string and a `line` number.
pub open spec fn piece_breakpoint(p: Seq<char>) -> Seq<(Seq<char>, i32)> {
    match (spec_extract_json_string(p, "filename"@), spec_extract_json_number(p, "line"@)) {
        (Some(f), Some(l)) => seq![(f, l as i32)],
        _ => Seq::empty(),
    }
}

/// The breakpoints the object texts describe, in order.
pub open spec fn pieces_breakpoints(ps: Seq<Seq<char>>) -> Seq<(Seq<char>, i32)>
    decreases ps.len(),
{
    if ps.len() == 0 {
        Seq::empty()
    } else {
        piece_breakpoint(ps[0]) + pieces_breakpoints(ps.skip(1))
    }
}

/// The breakpoint list of the host's answer: absent without a
/// `"breakpoints":[`; otherwise the objects up to the first `]`, cut at
/// every `},`.
pub open spec fn spec_action_breakpoints(j: Seq<char>) -> Option<Seq<(Seq<char>, i32)>> {
    let key = "\"breakpoints\":["@;
    match seq_find(j, key) {
        None => None,
        Some(s) => {
            let sec = j.skip(s);
            match seq_find(sec, seq![']']) {
                None => Some(Seq::empty()),
                Some(e) => Some(pieces_breakpoints(split_on(sec.subrange(key.len() as int, e), "},"@))),
            }
        },
    }
}

fn breakpoints_in(content: &Vec<char>) -> (r: Vec<Breakpoint>)
    ensures
        r@.map_values(|b: Breakpoint| b@) == pieces_breakpoints(split_on(content@, "},"@)),
{
    let sep = chars_of("},");
    proof {
        reveal_strlit("},");
    }
    assert(sep@.len() == 2);
    let mut bps: Vec<Breakpoint> = Vec::new();
    let mut rest = sub_vec(content, 0, content.len());
    assert(content@.subrange(0, content@.len() as int) =~= content@);
    loop
        invariant
            sep@ == "},"@,
            sep@.len() == 2,
            pieces_breakpoints(split_on(content@, sep@)) == bps@.map_values(|b: Breakpoint| b@)
                + pieces_breakpoints(split_on(rest@, sep@)),
        decreases rest.len(),
    {
        let ghost before = bps@.map_values(|b: Breakpoint| b@);
        let ghost whole = rest@;
        let found = find_first(&rest, &sep);
        let (piece, next) = match found {
            Some(i) => (sub_vec(&rest, 0, i), Some(i)),
            None => (sub_vec(&rest, 0, rest.len()), None),
        };
        let text = string_from_chars(&piece);
        let fname = extract_json_string(text.as_str(), "filename");
        let line = extract_json_number(text.as_str(), "line");
        let ghost pb = piece_breakpoint(piece@);
        match (fname, line) {
            (Some(f), Some(l)) => {
                bps.push(Breakpoint { filename: f, line: l as i32 });
                assert(bps@.map_values(|b: Breakpoint| b@) =~= before + pb);
            },
            _ => {
                assert(bps@.map_values(|b: Breakpoint| b@) =~= before + pb);
            },
        }
        match next {
            Some(i) => {
                let ghost after = whole.skip(i + 2);
                assert(whole.take(i as int) =~= piece@);
                assert(split_on(whole, sep@) == seq![piece@] + split_on(after, sep@));
                assert((seq![piece@] + split_on(after, sep@))[0] == piece@);
                assert((seq![piece@] + split_on(after, sep@)).skip(1) =~= split_on(after, sep@));
                rest = sub_vec(&rest, i + 2, rest.len());
                assert(rest@ =~= after);
                assert(before + pb + pieces_breakpoints(split_on(after, sep@)) =~= before + (pb
                    + pieces_breakpoints(split_on(after, sep@))));
            },
            None => {
                assert(whole.subrange(0, whole.len() as int) =~= piece@);
                assert(found is None);
                assert(seq_find(whole, sep@) is None);
                assert(split_on(whole, sep@) == seq![whole]);
                assert(seq![piece@].skip(1) =~= Seq::<Seq<char>>::empty());
                assert(pieces_breakpoints(Seq::<Seq<char>>::empty()) == Seq::<(Seq<char>, i32)>::empty());
                assert(seq![piece@][0] == piece@);
                assert(pieces_breakpoints(seq![piece@]) == piece_breakpoint(piece@) + pieces_breakpoints(
                    seq![piece@].skip(1),
                ));
                assert(pieces_breakpoints(seq![piece@]) =~= pb);
                assert(whole == piece@);
                assert(pieces_breakpoints(split_on(whole, sep@)) == pb);
                assert(before + pb =~= bps@.map_values(|b: Breakpoint| b@));
                return bps;
            },
        }
    }
}

/// Parses the host's answer, such as
/// `{"action":"continue","breakpoints":[{"filename":"file.js","line":10}]}`.
pub fn parse_debug_action(json: &str) -> (r: Option<DebugAction>)
    ensures
        r is Some,
        r matches Some(a) ==> a.action == spec_action_type(json@) && action_breakpoints(&a)
            == spec_action_breakpoints(json@),
{
    let v = chars_of(json);
    let action_type = if contains_str(&v, "\"action\":\"continue\"") {
        DebugActionType::Continue
    } else if contains_str(&v, "\"action\":\"StepInto\"") || contains_str(&v, "\"action\":\"Step\"") {
        DebugActionType::StepInto
    } else if contains_str(&v, "\"action\":\"StepOver\"") || contains_str(&v, "\"action\":\"Next\"") {
        DebugActionType::StepOver
    } else if contains_str(&v, "\"action\":\"StepOut\"") {
        DebugActionType::StepOut
    } else if contains_str(&v, "\"action\":\"Pause\"") {
        DebugActionType::Pause
    } else if contains_str(&v, "\"action\":\"Disconnect\"") {
        DebugActionType::Disconnect
    } else {
        DebugActionType::Continue
    };

    let mut breakpoints: Option<Vec<Breakpoint>> = None;
    let key = chars_of("\"breakpoints\":[");
    proof {
        reveal_strlit("\"breakpoints\":[");
    }
    if let Some(bp_start) = find_first(&v, &key) {
        let mut bps: Vec<Breakpoint> = Vec::new();
        let section = sub_vec(&v, bp_start, v.len());
        let close = chars_of("]");
        proof {
            reveal_strlit("]");
            assert(close@ =~= seq![']']);
            assert(section@ =~= v@.skip(bp_start as int));
        }
        if let Some(array_end) = find_first(&section, &close) {
            proof {
                assert(section@.subrange(array_end as int, array_end + 1) == seq![']']);
                assert(section@.subrange(array_end as int, array_end + 1)[0] == section@[array_end as int]);
                assert(section@[array_end as int] == ']');
                if array_end < key.len() {
                    assert(section@[array_end as int] == v@.subrange(bp_start as int, bp_start + key@.len())[array_end as int]);
                }
            }
            let content = sub_vec(&section, key.len(), array_end);
            bps = breakpoints_in(&content);
        } else {
            assert(bps@.map_values(|b: Breakpoint| b@) =~= Seq::empty());
        }
        breakpoints = Some(bps);
    }
    Some(DebugAction { action: action_type, breakpoints })
}


// ---------------------------------------------------------------------------
// Public API
// ---------------------------------------------------------------------------

/// Enables the debugger.
pub fn enable_debugger(state: &mut DebuggerState, stop_on_entry: bool)
    ensures
        final(state)@ == (StateView {
            enabled: true,
            stop_on_entry: stop_on_entry,
            first_op: true,
            ..old(state)@
        }),
{
    state.enabled = true;
    state.stop_on_entry = stop_on_entry;
    state.first_op = true;
}

/// Disables the debugger.
pub fn disable_debugger(state: &mut DebuggerState)
    ensures
        final(state)@ == (StateView { enabled: false, ..old(state)@ }),
{
    state.enabled = false;
}

/// The execution state cleared, the configuration (`enabled`,
/// `stop_on_entry`, breakpoints) kept.
pub open spec fn reset_state(s: StateView) -> StateView {
    StateView {
        call_stack: Seq::empty(),
        step_depth: 0,
        first_op: true,
        mode: DebugMode::Running,
        last_line: None,
        last_file: None,
        current_function: None,
        ..s
    }
}

/// Resets the debugger state for a new handler invocation.
///
/// Called at the start of each `register_handler` call or when a registered
/// handler is invoked, so that no invocation inherits a stale call stack or
/// stepping state. Configuration (`enabled`, `stop_on_entry`, breakpoints) is
/// preserved.
pub fn reset_debugger_state(state: &mut DebuggerState)
    ensures
        final(state)@ == reset_state(old(state)@),
{
    state.call_stack.clear();
    state.step_depth = 0;
    state.first_op = true;
    state.mode = DebugMode::Running;
    state.last_line = None;
    state.last_file = None;
    state.current_function = None;
    assert(frames_view(state.call_stack@) =~= Seq::empty());
}

/// Checks whether the debugger is enabled.
pub fn is_debugger_enabled(state: &DebuggerState) -> (r: bool)
    ensures
        r == state@.enabled,
{
    state.enabled
}

/// Adds a breakpoint.
pub fn add_breakpoint(state: &mut DebuggerState, filename: String, line: i32)
    ensures
        final(state)@ == (StateView {
            breakpoints: old(state)@.breakpoints.insert((filename@, line)),
            ..old(state)@
        }),
{
    state.breakpoints.insert(Breakpoint { filename, line });
}

/// Removes a breakpoint.
pub fn remove_breakpoint(state: &mut DebuggerState, filename: &str, line: i32)
    ensures
        final(state)@ == (StateView {
            breakpoints: old(state)@.breakpoints.remove((filename@, line)),
            ..old(state)@
        }),
{
    state.breakpoints.remove_at(filename, line);
}

// ---------------------------------------------------------------------------
// Trace events
// ---------------------------------------------------------------------------

/// Copies a frame.
fn clone_frame(f: &StackFrame) -> (r: StackFrame)
    ensures
        r@ == f@,
{
    let mut vars: Vec<Variable> = Vec::new();
    let mut i: usize = 0;
    while i < f.variables.len()
        invariant
            i <= f.variables.len(),
            vars@.map_values(|v: Variable| v@) == f.variables@.map_values(|v: Variable| v@).take(i as int),
        decreases f.variables.len() - i,
    {
        let v = &f.variables[i];
        let w = Variable { name: v.name.clone(), value: v.value.clone(), value_type: v.value_type.clone() };
        let ghost before = vars@;
        vars.push(w);
        assert(vars@.map_values(|v: Variable| v@) =~= before.map_values(|v: Variable| v@).push(w@));
        assert(vars@.map_values(|v: Variable| v@) =~= f.variables@.map_values(|v: Variable| v@).take(i + 1));
        i = i + 1;
    }
    assert(f.variables@.map_values(|v: Variable| v@).take(f.variables.len() as int)
        =~= f.variables@.map_values(|v: Variable| v@));
    StackFrame {
        id: f.id,
        name: f.name.clone(),
        location: Location {
            filename: f.location.filename.clone(),
            function: f.location.function.clone(),
            line: f.location.line,
            column: f.location.column,
        },
        variables: vars,
    }
}

/// The stop decision for a trace event: taken on the call stack updated for
/// the event, but against the function that ran before it, so that step mode
/// also stops when control moves to another function on the same line.
pub open spec fn spec_break_reason(
    s: StateView,
    filename: Seq<char>,
    funcname: Seq<char>,
    line: i32,
    col: i32,
) -> Option<StopReason> {
    let s1 = spec_update_call_stack(s, filename, funcname, line, col);
    spec_should_break(StateView { current_function: s.current_function, ..s1 }, filename, line, funcname)
}

/// The state after an enabled debugger observes a trace event.
pub open spec fn after_trace(
    s: StateView,
    filename: Seq<char>,
    funcname: Seq<char>,
    line: i32,
    col: i32,
) -> StateView {
    let s1 = spec_update_call_stack(s, filename, funcname, line, col);
    let s2 = StateView { last_line: Some(line), last_file: Some(filename), ..s1 };
    if spec_break_reason(s, filename, funcname, line, col) is Some {
        StateView { first_op: false, ..s2 }
    } else {
        s2
    }
}

/// Observes one trace event of the runtime.
///
/// A disabled debugger ignores it. Otherwise the call stack is updated, the
/// break decision taken and the location remembered; when execution must
/// stop, the event reports the reason, the location and the call stack,
/// innermost frame first.
pub fn trace_event(
    state: &mut DebuggerState,
    filename: &str,
    funcname: &str,
    line: i32,
    col: i32,
) -> (r: Option<DebugBreakEvent>)
    ensures
        !old(state)@.enabled ==> r is None && final(state)@ == old(state)@,
        old(state)@.enabled ==> final(state)@ == after_trace(old(state)@, filename@, funcname@, line, col),
        old(state)@.enabled ==> ({
            let s1 = spec_update_call_stack(old(state)@, filename@, funcname@, line, col);
            match spec_break_reason(old(state)@, filename@, funcname@, line, col) {
                None => r is None,
                Some(reason) => r matches Some(ev) && ev.reason == reason && ev.location@ == (LocationView {
                    filename: filename@,
                    function: funcname@,
                    line: line,
                    column: col,
                }) && frames_view(ev.stack_frames@) == s1.call_stack.reverse(),
            }
        }),
{
    if !state.enabled {
        return None;
    }
    let entered_other = !crate::text::opt_str_is(&state.current_function, funcname);
    state.update_call_stack(filename, funcname, line, col);
    let reason = match state.should_break(filename, line, funcname) {
        Some(r) => Some(r),
        None => if state.mode == DebugMode::Step && entered_other {
            Some(StopReason::Step)
        } else {
            None
        },
    };
    state.last_line = Some(line);
    state.last_file = Some(owned(filename));
    let reason = match reason {
        Some(r) => r,
        None => return None,
    };
    state.first_op = false;

    let ghost stack = frames_view(state.call_stack@);
    let n = state.call_stack.len();
    let mut frames: Vec<StackFrame> = Vec::new();
    let mut i: usize = 0;
    while i < n
        invariant
            n == state.call_stack.len(),
            stack == frames_view(state.call_stack@),
            i <= n,
            frames_view(frames@) == stack.reverse().take(i as int),
        decreases n - i,
    {
        let f = clone_frame(&state.call_stack[n - 1 - i]);
        let ghost before = frames@;
        proof {
            assert(stack[n - 1 - i] == state.call_stack@[n - 1 - i]@);
            assert(stack.reverse()[i as int] == stack[n - 1 - i]);
        }
        frames.push(f);
        assert(frames_view(frames@) =~= frames_view(before).push(f@));
        assert(frames_view(frames@) =~= stack.reverse().take(i + 1));
        i = i + 1;
    }
    assert(stack.reverse().take(n as int) =~= stack.reverse());
    Some(DebugBreakEvent {
        reason,
        location: Location { filename: owned(filename), function: owned(funcname), line, column: col },
        stack_frames: frames,
    })
}

/// Applies the host's answer to a debug break: the parsed action (or
/// continue, should parsing fail) is handed to [`DebuggerState::handle_action`].
pub fn apply_host_response(state: &mut DebuggerState, response: &str)
    ensures
        final(state)@ == spec_handle_action(
            old(state)@,
            spec_action_type(response@),
            spec_action_breakpoints(response@),
        ),
{
    let action = match parse_debug_action(response) {
        Some(a) => a,
        None => DebugAction { action: DebugActionType::Continue, breakpoints: None },
    };
    state.handle_action(action);
}

} // verus!

verus! {

// ---------------------------------------------------------------------------
// Laws
// ---------------------------------------------------------------------------

/// Text without control characters other than newline, carriage return and
/// tab.
pub open spec fn plain_text(s: Seq<char>) -> bool {
    forall|i: int|
        0 <= i < s.len() ==> !is_control(#[trigger] s[i]) || s[i] == '\n' || s[i] == '\r' || s[i] == '\t'
}

proof fn lemma_escape_prepend(c: char, t: Seq<char>)
    ensures
        escape_json(seq![c] + t) == escape_char(c) + escape_json(t),
    decreases t.len(),
{
    if t.len() == 0 {
        assert(seq![c] + t =~= seq![c]);
        assert(seq![c].drop_last() =~= Seq::<char>::empty());
        assert(escape_json(Seq::<char>::empty()) == Seq::<char>::empty());
        assert(escape_json(seq![c]) == escape_json(seq![c].drop_last()) + escape_char(c));
        assert(escape_char(c) + Seq::<char>::empty() =~= escape_char(c));
        assert(Seq::<char>::empty() + escape_char(c) =~= escape_char(c));
    } else {
        lemma_escape_prepend(c, t.drop_last());
        assert((seq![c] + t).drop_last() =~= seq![c] + t.drop_last());
        assert((seq![c] + t).last() == t.last());
        assert(escape_char(c) + escape_json(t.drop_last()) + escape_char(t.last()) =~= escape_char(c) + (
        escape_json(t.drop_last()) + escape_char(t.last())));
    }
}

/// Reading back an escaped string yields that same string, whatever
/// follows its closing quote.
pub proof fn lemma_escape_read_back(s: Seq<char>, rest: Seq<char>)
    requires
        plain_text(s),
    ensures
        read_string_body(escape_json(s) + seq!['"'] + rest) == Some(s),
    decreases s.len(),
{
    if s.len() == 0 {
        assert(escape_json(s) + seq!['"'] + rest =~= seq!['"'] + rest);
    } else {
        let c = s[0];
        let t = s.skip(1);
        assert(s =~= seq![c] + t);
        assert(plain_text(t)) by {
            assert forall|i: int| 0 <= i < t.len() implies !is_control(#[trigger] t[i]) || t[i] == '\n'
                || t[i] == '\r' || t[i] == '\t' by {
                assert(t[i] == s[i + 1]);
            }
        }
        assert(!is_control(s[0]) || s[0] == '\n' || s[0] == '\r' || s[0] == '\t');
        lemma_escape_read_back(t, rest);
        lemma_escape_prepend(c, t);
        let tail = escape_json(t) + seq!['"'] + rest;
        let whole = escape_json(s) + seq!['"'] + rest;
        assert(whole =~= escape_char(c) + tail);
        if escape_char(c).len() == 2 {
            assert(whole.skip(2) =~= tail);
            assert(unescape_pair(whole[1]) =~= seq![c]);
        } else {
            assert(escape_char(c) == seq![c]);
            assert(whole.skip(1) =~= tail);
        }
        assert(seq![c] + t =~= s);
    }
}

/// What [`escape_json_string`] writes after a key, [`extract_json_string`]
/// reads back.
pub proof fn lemma_extract_escaped(key: Seq<char>, s: Seq<char>)
    requires
        plain_text(s),
    ensures
        spec_extract_json_string(string_key(key) + escape_json(s) + seq!['"'], key) == Some(s),
{
    let p = string_key(key);
    let text = p + escape_json(s) + seq!['"'];
    assert(text.subrange(0, p.len() as int) =~= p);
    assert(seq_find(text, p) == Some(0int));
    assert(text.skip(p.len() as int) =~= escape_json(s) + seq!['"'] + Seq::<char>::empty());
    lemma_escape_read_back(s, Seq::empty());
}

/// After `add_breakpoint(file, line)` the debugger has a breakpoint at that
/// line of that file.
pub proof fn lemma_added_breakpoint_hits(s: StateView, filename: Seq<char>, line: i32)
    ensures
        spec_has_breakpoint(s.breakpoints.insert((filename, line)), filename, line),
{
    assert(s.breakpoints.insert((filename, line)).contains((filename, line)));
}

/// After `remove_breakpoint(file, line)` that breakpoint is gone and every
/// other one is kept.
pub proof fn lemma_removed_breakpoint_gone(s: StateView, filename: Seq<char>, line: i32)
    ensures
        !s.breakpoints.remove((filename, line)).contains((filename, line)),
        forall|b: (Seq<char>, i32)|
            b != (filename, line) ==> (#[trigger] s.breakpoints.remove((filename, line)).contains(b)
                <==> s.breakpoints.contains(b)),
{
}

/// The entry stop happens at most once: after the debugger has stopped, no
/// later trace event stops with reason `Entry` (until the state is reset or
/// the debugger re-enabled).
pub proof fn lemma_entry_stop_once(
    s: StateView,
    filename: Seq<char>,
    funcname: Seq<char>,
    line: i32,
    col: i32,
    next_file: Seq<char>,
    next_func: Seq<char>,
    next_line: i32,
    next_col: i32,
)
    requires
        s.enabled,
        spec_break_reason(s, filename, funcname, line, col) is Some,
    ensures
        ({
            let t = after_trace(s, filename, funcname, line, col);
            spec_break_reason(t, next_file, next_func, next_line, next_col)
                != Some(StopReason::Entry)
        }),
{
}

/// While running, several trace events on one line of one file stop at most
/// once: after an event, the next one on the same line and file does not
/// stop.
pub proof fn lemma_same_line_stops_once(
    s: StateView,
    filename: Seq<char>,
    funcname: Seq<char>,
    line: i32,
    col: i32,
    next_func: Seq<char>,
    next_col: i32,
)
    requires
        s.enabled,
        s.mode == DebugMode::Running,
    ensures
        ({
            let t = after_trace(s, filename, funcname, line, col);
            spec_break_reason(t, filename, next_func, line, next_col)
                is None
        }),
{
}

/// Resetting keeps the configuration: whether the debugger is enabled,
/// whether it stops on entry, and the breakpoints.
pub proof fn lemma_reset_keeps_configuration(s: StateView)
    ensures
        reset_state(s).enabled == s.enabled,
        reset_state(s).stop_on_entry == s.stop_on_entry,
        reset_state(s).breakpoints == s.breakpoints,
        reset_state(s).first_op,
        reset_state(s).call_stack.len() == 0,
{
}

/// The call stack follows execution: after a trace event, the innermost
/// frame (if any) lies at the event's file, line and column; a change of
/// function always leaves a frame, and a break reports the innermost frame
/// first.
pub proof fn lemma_top_frame_follows_execution(
    s: StateView,
    filename: Seq<char>,
    funcname: Seq<char>,
    line: i32,
    col: i32,
)
    ensures
        ({
            let stack = spec_update_call_stack(s, filename, funcname, line, col).call_stack;
            &&& s.current_function != Some(funcname) ==> stack.len() > 0
            &&& stack.len() > 0 ==> stack.last().location.filename == filename && stack.last().location.line
                == line && stack.last().location.column == col
            &&& stack.len() > 0 ==> stack.reverse()[0] == stack.last()
        }),
{
}

/// A breakpoint at the event's line of a file with the same normalized path
/// stops a running debugger when the line changed, and a debugger stepping
/// over or out while deeper than where the step began: breakpoints inside
/// called functions are honoured.
pub proof fn lemma_breakpoint_hit_stops(
    s: StateView,
    filename: Seq<char>,
    funcname: Seq<char>,
    line: i32,
    col: i32,
    bp_file: Seq<char>,
)
    requires
        !(s.first_op && s.stop_on_entry),
        s.breakpoints.contains((bp_file, line)),
        spec_normalize_path(bp_file) == spec_normalize_path(filename),
    ensures
        s.mode == DebugMode::Running && (s.last_line != Some(line) || s.last_file != Some(filename))
            ==> spec_break_reason(s, filename, funcname, line, col) == Some(StopReason::Breakpoint),
        s.mode == DebugMode::StepOver && spec_update_call_stack(s, filename, funcname, line, col).call_stack.len()
            > s.step_depth ==> spec_break_reason(s, filename, funcname, line, col) == Some(StopReason::Breakpoint),
        s.mode == DebugMode::StepOut && spec_update_call_stack(s, filename, funcname, line, col).call_stack.len()
            >= s.step_depth ==> spec_break_reason(s, filename, funcname, line, col) == Some(StopReason::Breakpoint),
{
    assert(spec_has_breakpoint(s.breakpoints, filename, line));
}

/// After a reset the debugger runs freely: the mode is running and the step
/// depth 0, so without stop-on-entry and without a breakpoint at the event's
/// location the next trace event does not stop.
pub proof fn lemma_reset_runs_freely(
    s: StateView,
    filename: Seq<char>,
    funcname: Seq<char>,
    line: i32,
    col: i32,
)
    requires
        !s.stop_on_entry,
        forall|b: (Seq<char>, i32)|
            #[trigger] s.breakpoints.contains(b) ==> !(b.1 == line && spec_normalize_path(b.0) == spec_normalize_path(
                filename,
            )),
    ensures
        reset_state(s).mode == DebugMode::Running,
        reset_state(s).step_depth == 0,
        spec_break_reason(reset_state(s), filename, funcname, line, col) is None,
{
}

} // verus!
