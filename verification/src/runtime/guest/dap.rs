//! Debugger state machine: breakpoints, stepping modes and call-stack tracking.
//!
//! The runtime calls [`break_event_at`] on every trace event. When it returns an
//! event, the runtime reports it to the host and feeds the host's answer back
//! through [`DebuggerState::handle_action`].

use vstd::prelude::*;

use crate::shared::{clone_location, stack_frames_view, BreakEventView, breakpoints_view, opt_view, DebugAction, DebugActionType, DebugBreakEvent, DebugBreakReason, DebugBreakpoint, DebugLocation, DebugStackFrame, LocationView, BreakpointView, StackFrameView};
use crate::text::{chars_of, opt_str_is, owned, seq_ends_with, str_eq, string_from_range};

verus! {

broadcast use vstd::string::group_string_axioms;

// ---------------------------------------------------------------------------
// Path helpers
// ---------------------------------------------------------------------------

/// A path separator: forward or back slash.
pub open spec fn is_sep(c: char) -> bool {
    c == '/' || c == '\\'
}

/// `s` without its trailing separators.
pub open spec fn trim_trailing_seps(s: Seq<char>) -> Seq<char>
    decreases s.len(),
{
    if s.len() > 0 && is_sep(s.last()) {
        trim_trailing_seps(s.drop_last())
    } else {
        s
    }
}

/// `s` without one leading `./`.
pub open spec fn strip_dot_slash(s: Seq<char>) -> Seq<char> {
    if s.len() >= 2 && s[0] == '.' && s[1] == '/' {
        s.skip(2)
    } else {
        s
    }
}

/// Index of the last occurrence of `c` in `s`.
pub open spec fn last_index_of(s: Seq<char>, c: char) -> Option<int>
    decreases s.len(),
{
    if s.len() == 0 {
        None
    } else if s.last() == c {
        Some(s.len() - 1)
    } else {
        last_index_of(s.drop_last(), c)
    }
}

/// The last component of a path: trailing separators and one leading `./`
/// are dropped, then everything up to the last `/` (or, if there is none,
/// the last `\`).
pub open spec fn spec_basename(path: Seq<char>) -> Seq<char> {
    let t = strip_dot_slash(trim_trailing_seps(path));
    match last_index_of(t, '/') {
        Some(i) => t.skip(i + 1),
        None => match last_index_of(t, '\\') {
            Some(i) => t.skip(i + 1),
            None => t,
        },
    }
}

/// `long` is `short` preceded by a path separator.
pub open spec fn sep_suffix(short: Seq<char>, long: Seq<char>) -> bool {
    &&& short.len() < long.len()
    &&& seq_ends_with(long, short)
    &&& is_sep(long[long.len() - short.len() - 1])
}

/// Two paths name the same file: equal basenames, or one path is a
/// separator-delimited suffix of the other.
pub open spec fn spec_paths_match(a: Seq<char>, b: Seq<char>) -> bool {
    spec_basename(a) == spec_basename(b) || sep_suffix(a, b) || sep_suffix(b, a)
}

proof fn lemma_last_index_step(s: Seq<char>, lo: int, i: int, c: char)
    requires
        0 <= lo < i <= s.len(),
        s[i - 1] != c,
    ensures
        last_index_of(s.subrange(lo, i), c) == last_index_of(s.subrange(lo, i - 1), c),
{
    assert(s.subrange(lo, i).drop_last() =~= s.subrange(lo, i - 1));
}

proof fn lemma_last_index_hit(s: Seq<char>, lo: int, i: int, c: char)
    requires
        0 <= lo < i <= s.len(),
        s[i - 1] == c,
    ensures
        last_index_of(s.subrange(lo, i), c) == Some(i - 1 - lo),
{
}

/// Finds the last `c` in `v[lo..hi]`, as an index into `v`.
fn rfind_char(v: &Vec<char>, lo: usize, hi: usize, c: char) -> (r: Option<usize>)
    requires
        lo <= hi <= v.len(),
    ensures
        match r {
            Some(k) => lo <= k < hi && last_index_of(v@.subrange(lo as int, hi as int), c)
                == Some(k - lo),
            None => last_index_of(v@.subrange(lo as int, hi as int), c) is None,
        },
{
    let mut i = hi;
    while i > lo
        invariant
            lo <= i <= hi <= v.len(),
            last_index_of(v@.subrange(lo as int, hi as int), c) == last_index_of(
                v@.subrange(lo as int, i as int),
                c,
            ),
        decreases i,
    {
        if v[i - 1] == c {
            proof {
                lemma_last_index_hit(v@, lo as int, i as int, c);
            }
            return Some(i - 1);
        }
        proof {
            lemma_last_index_step(v@, lo as int, i as int, c);
        }
        i = i - 1;
    }
    assert(v@.subrange(lo as int, i as int).len() == 0);
    None
}

/// Extracts the basename (last component) of a path.
///
/// Handles leading `./`, trailing separators, and both forward and back
/// slashes.
pub fn basename(path: &str) -> (r: String)
    ensures
        r@ == spec_basename(path@),
{
    let v = chars_of(path);
    let mut end = v.len();
    assert(v@.subrange(0, end as int) =~= v@);
    while end > 0 && (v[end - 1] == '/' || v[end - 1] == '\\')
        invariant
            end <= v.len(),
            trim_trailing_seps(v@) == trim_trailing_seps(v@.subrange(0, end as int)),
        decreases end,
    {
        assert(v@.subrange(0, end as int).drop_last() =~= v@.subrange(0, end - 1));
        end = end - 1;
    }
    assert(trim_trailing_seps(v@) == v@.subrange(0, end as int));
    let ghost t = v@.subrange(0, end as int);
    let start: usize = if end >= 2 && v[0] == '.' && v[1] == '/' {
        2
    } else {
        0
    };
    assert(strip_dot_slash(t) =~= v@.subrange(start as int, end as int));
    match rfind_char(&v, start, end, '/') {
        Some(k) => {
            assert(v@.subrange(start as int, end as int).skip(k - start + 1) =~= v@.subrange(
                k + 1,
                end as int,
            ));
            string_from_range(&v, k + 1, end)
        },
        None => match rfind_char(&v, start, end, '\\') {
            Some(k) => {
                assert(v@.subrange(start as int, end as int).skip(k - start + 1)
                    =~= v@.subrange(k + 1, end as int));
                string_from_range(&v, k + 1, end)
            },
            None => string_from_range(&v, start, end),
        },
    }
}

/// Whether `long` ends with `short`.
fn chars_end_with(long: &Vec<char>, short: &Vec<char>) -> (r: bool)
    ensures
        r == seq_ends_with(long@, short@),
{
    if short.len() > long.len() {
        return false;
    }
    let off = long.len() - short.len();
    let mut i: usize = 0;
    while i < short.len()
        invariant
            off + short.len() == long.len(),
            i <= short.len(),
            forall|j: int| 0 <= j < i ==> long@[off + j] == short@[j],
        decreases short.len() - i,
    {
        if long[off + i] != short[i] {
            assert(long@.subrange(off as int, long.len() as int)[i as int] != short@[i as int]);
            return false;
        }
        i = i + 1;
    }
    assert(long@.subrange(off as int, long.len() as int) =~= short@);
    true
}

/// Checks whether two paths refer to the same file.
///
/// Basenames are compared first, so that `/app/src/file.js` matches
/// `file.js`; otherwise one path must be the other's suffix right after a
/// separator, so that `src/file.js` matches `/app/src/file.js`.
pub fn paths_match(a: &str, b: &str) -> (r: bool)
    ensures
        r == spec_paths_match(a@, b@),
{
    let ba = basename(a);
    let bb = basename(b);
    if str_eq(ba.as_str(), bb.as_str()) {
        return true;
    }
    let va = chars_of(a);
    let vb = chars_of(b);
    if va.len() <= vb.len() {
        if !chars_end_with(&vb, &va) {
            return false;
        }
        if va.len() == vb.len() {
            assert(vb@.subrange(0, vb@.len() as int) =~= vb@);
            assert(false);
        }
        let c = vb[vb.len() - va.len() - 1];
        c == '/' || c == '\\'
    } else {
        if !chars_end_with(&va, &vb) {
            return false;
        }
        let c = va[va.len() - vb.len() - 1];
        c == '/' || c == '\\'
    }
}


// ---------------------------------------------------------------------------
// State
// ---------------------------------------------------------------------------

/// Execution mode of the debugger.
#[derive(Debug, Clone, Copy, PartialEq, Eq, Structural)]
pub enum DebugMode {
    /// Normal execution: only stop at breakpoints.
    Running,
    /// Stop at the very next trace event (step into).
    Step,
    /// Stop at the next event in the same or a parent frame (step over).
    StepOver,
    /// Stop when returning to the parent frame (step out).
    StepOut,
}

/// A call-stack entry whose location follows execution.
#[derive(Debug, Clone)]
pub struct InternalFrame {
    pub name: String,
    pub location: DebugLocation,
}

/// Mathematical model of an [`InternalFrame`].
pub struct FrameView {
    pub name: Seq<char>,
    pub location: LocationView,
}

impl View for InternalFrame {
    type V = FrameView;

    open spec fn view(&self) -> FrameView {
        FrameView { name: self.name@, location: self.location@ }
    }
}

/// The mutable debugger state.
pub struct DebuggerState {
    enabled: bool,
    mode: DebugMode,
    breakpoints: Vec<DebugBreakpoint>,
    call_stack: Vec<InternalFrame>,
    step_depth: usize,
    first_op: bool,
    stop_on_entry: bool,
    last_line: Option<i32>,
    last_file: Option<String>,
    current_function: Option<String>,
}

/// Mathematical model of a [`DebuggerState`].
pub struct DebuggerView {
    pub enabled: bool,
    pub mode: DebugMode,
    pub breakpoints: Seq<BreakpointView>,
    pub call_stack: Seq<FrameView>,
    pub step_depth: nat,
    pub first_op: bool,
    pub stop_on_entry: bool,
    pub last_line: Option<i32>,
    pub last_file: Option<Seq<char>>,
    pub current_function: Option<Seq<char>>,
}

/// The view of a call stack.
pub open spec fn frames_view(frames: Seq<InternalFrame>) -> Seq<FrameView> {
    frames.map_values(|f: InternalFrame| f@)
}

impl View for DebuggerState {
    type V = DebuggerView;

    closed spec fn view(&self) -> DebuggerView {
        DebuggerView {
            enabled: self.enabled,
            mode: self.mode,
            breakpoints: breakpoints_view(self.breakpoints@),
            call_stack: frames_view(self.call_stack@),
            step_depth: self.step_depth as nat,
            first_op: self.first_op,
            stop_on_entry: self.stop_on_entry,
            last_line: self.last_line,
            last_file: opt_view(self.last_file),
            current_function: opt_view(self.current_function),
        }
    }
}

/// The state a fresh debugger starts in: disabled, running, no breakpoints,
/// empty call stack, at the first operation.
pub open spec fn initial_view() -> DebuggerView {
    DebuggerView {
        enabled: false,
        mode: DebugMode::Running,
        breakpoints: Seq::empty(),
        call_stack: Seq::empty(),
        step_depth: 0,
        first_op: true,
        stop_on_entry: false,
        last_line: None,
        last_file: None,
        current_function: None,
    }
}

impl Default for DebuggerState {
    fn default() -> (r: Self)
        ensures
            r@ == initial_view(),
    {
        let r = DebuggerState {
            enabled: false,
            mode: DebugMode::Running,
            breakpoints: Vec::new(),
            call_stack: Vec::new(),
            step_depth: 0,
            first_op: true,
            stop_on_entry: false,
            last_line: None,
            last_file: None,
            current_function: None,
        };
        assert(breakpoints_view(r.breakpoints@) =~= Seq::empty());
        assert(frames_view(r.call_stack@) =~= Seq::empty());
        r
    }
}

// ---------------------------------------------------------------------------
// Public API
// ---------------------------------------------------------------------------

/// Enables the debugger. With `stop_on_entry` it breaks at the very first
/// trace event.
pub fn enable(state: &mut DebuggerState, stop_on_entry: bool)
    ensures
        final(state)@ == (DebuggerView {
            enabled: true,
            stop_on_entry: stop_on_entry,
            first_op: true,
            ..old(state)@
        }),
{
    state.enabled = true;
    state.stop_on_entry = stop_on_entry;
    state.first_op = true;
}

/// Disables the debugger; execution continues without interruption.
pub fn disable(state: &mut DebuggerState)
    ensures
        final(state)@ == (DebuggerView { enabled: false, ..old(state)@ }),
{
    state.enabled = false;
}

/// The per-invocation part of the state cleared, the configuration
/// (`enabled`, `stop_on_entry`, breakpoints) kept.
pub open spec fn reset_view(s: DebuggerView) -> DebuggerView {
    DebuggerView {
        call_stack: Seq::empty(),
        step_depth: 0,
        first_op: true,
        mode: DebugMode::Running,
        last_line: None,
        last_file: None,
        current_function: None,
        ..s
    }
}

/// Resets per-invocation state.
///
/// Stale call-stack and stepping state from a previous invocation is
/// cleared; configuration (`enabled`, `stop_on_entry`, breakpoints) is
/// preserved.
pub fn reset(state: &mut DebuggerState)
    ensures
        final(state)@ == reset_view(old(state)@),
{
    state.call_stack.clear();
    state.step_depth = 0;
    state.first_op = true;
    state.mode = DebugMode::Running;
    state.last_line = None;
    state.last_file = None;
    state.current_function = None;
    assert(frames_view(state.call_stack@) =~= Seq::empty());
}

/// Returns `true` when the debugger is active.
pub fn is_enabled(state: &DebuggerState) -> (r: bool)
    ensures
        r == state@.enabled,
{
    state.enabled
}


// ---------------------------------------------------------------------------
// State machine
// ---------------------------------------------------------------------------

/// Breakpoint `bp` is enabled and sits at `line` of `filename`.
pub open spec fn bp_hits(bp: BreakpointView, filename: Seq<char>, line: i32) -> bool {
    &&& bp.enabled
    &&& bp.line as i32 == line
    &&& spec_paths_match(bp.filename, filename)
}

/// Some breakpoint of `bps` sits at `line` of `filename`.
pub open spec fn spec_has_breakpoint(bps: Seq<BreakpointView>, filename: Seq<char>, line: i32) -> bool {
    exists|i: int| 0 <= i < bps.len() && #[trigger] bp_hits(bps[i], filename, line)
}

/// Whether, and why, the debugger stops at `line` of `filename` in `funcname`.
pub open spec fn spec_should_break(
    s: DebuggerView,
    filename: Seq<char>,
    line: i32,
    funcname: Seq<char>,
) -> Option<DebugBreakReason> {
    if s.first_op && s.stop_on_entry {
        Some(DebugBreakReason::Entry)
    } else {
        let line_changed = s.last_line != Some(line) || s.last_file != Some(filename);
        let function_changed = s.current_function != Some(funcname);
        let hit = spec_has_breakpoint(s.breakpoints, filename, line);
        match s.mode {
            DebugMode::Running => if line_changed && hit {
                Some(DebugBreakReason::Breakpoint)
            } else {
                None
            },
            DebugMode::Step => if line_changed || function_changed {
                Some(DebugBreakReason::Step)
            } else {
                None
            },
            DebugMode::StepOver => if s.call_stack.len() <= s.step_depth {
                if line_changed {
                    Some(DebugBreakReason::Step)
                } else {
                    None
                }
            } else if hit {
                Some(DebugBreakReason::Breakpoint)
            } else {
                None
            },
            DebugMode::StepOut => if s.call_stack.len() < s.step_depth {
                Some(DebugBreakReason::Step)
            } else if hit {
                Some(DebugBreakReason::Breakpoint)
            } else {
                None
            },
        }
    }
}

/// `loc` moved to `line`/`col` of `filename`, keeping its function name.
pub open spec fn moved(loc: LocationView, filename: Seq<char>, line: i32, col: i32) -> LocationView {
    LocationView {
        filename: filename,
        function_name: loc.function_name,
        line: line as u32,
        column: Some(col as u32),
    }
}

/// The stack with its top frame moved to the given location.
pub open spec fn retarget_top(stack: Seq<FrameView>, filename: Seq<char>, line: i32, col: i32) -> Seq<FrameView> {
    if stack.len() == 0 {
        stack
    } else {
        stack.update(
            stack.len() - 1,
            FrameView {
                name: stack.last().name,
                location: moved(stack.last().location, filename, line, col),
            },
        )
    }
}

/// The frame pushed when execution enters `funcname`.
pub open spec fn entered_frame(filename: Seq<char>, funcname: Seq<char>, line: i32, col: i32) -> FrameView {
    FrameView {
        name: funcname,
        location: LocationView {
            filename: filename,
            function_name: Some(funcname),
            line: line as u32,
            column: Some(col as u32),
        },
    }
}

/// Call-stack tracking by function-name transitions: the same function moves
/// the top frame; returning to the parent's name pops and moves the parent;
/// any other name pushes a new frame.
pub open spec fn spec_update_call_stack(
    s: DebuggerView,
    filename: Seq<char>,
    funcname: Seq<char>,
    line: i32,
    col: i32,
) -> DebuggerView {
    if s.current_function == Some(funcname) {
        DebuggerView { call_stack: retarget_top(s.call_stack, filename, line, col), ..s }
    } else if s.call_stack.len() >= 2 && s.call_stack[s.call_stack.len() - 2].name == funcname {
        DebuggerView {
            call_stack: retarget_top(s.call_stack.drop_last(), filename, line, col),
            current_function: Some(funcname),
            ..s
        }
    } else {
        DebuggerView {
            call_stack: s.call_stack.push(entered_frame(filename, funcname, line, col)),
            current_function: Some(funcname),
            ..s
        }
    }
}

/// The state after the host's action: the breakpoint set is replaced and the
/// mode follows the action.
pub open spec fn spec_handle_action(
    s: DebuggerView,
    action: DebugActionType,
    bps: Seq<BreakpointView>,
) -> DebuggerView {
    let s1 = DebuggerView { breakpoints: bps, ..s };
    match action {
        DebugActionType::Continue => DebuggerView { mode: DebugMode::Running, ..s1 },
        DebugActionType::StepInto => DebuggerView { mode: DebugMode::Step, ..s1 },
        DebugActionType::StepOver => DebuggerView {
            mode: DebugMode::StepOver,
            step_depth: s.call_stack.len(),
            ..s1
        },
        DebugActionType::StepOut => DebuggerView {
            mode: DebugMode::StepOut,
            step_depth: s.call_stack.len(),
            ..s1
        },
        DebugActionType::Disconnect => DebuggerView {
            enabled: false,
            mode: DebugMode::Running,
            ..s1
        },
    }
}

impl DebuggerState {
    /// Checks whether any enabled breakpoint matches the given location.
    pub fn has_breakpoint(&self, filename: &str, line: i32) -> (r: bool)
        ensures
            r == spec_has_breakpoint(self@.breakpoints, filename@, line),
    {
        let ghost bps = self@.breakpoints;
        let mut i: usize = 0;
        while i < self.breakpoints.len()
            invariant
                bps == breakpoints_view(self.breakpoints@),
                i <= self.breakpoints.len(),
                forall|j: int| 0 <= j < i ==> !#[trigger] bp_hits(bps[j], filename@, line),
            decreases self.breakpoints.len() - i,
        {
            let bp = &self.breakpoints[i];
            if bp.enabled && bp.line as i32 == line && paths_match(bp.filename.as_str(), filename) {
                assert(bp_hits(bps[i as int], filename@, line));
                return true;
            }
            i = i + 1;
        }
        false
    }

    /// Decides whether to break at the current location.
    pub fn should_break(&self, filename: &str, line: i32, funcname: &str) -> (r: Option<DebugBreakReason>)
        ensures
            r == spec_should_break(self@, filename@, line, funcname@),
    {
        if self.first_op && self.stop_on_entry {
            return Some(DebugBreakReason::Entry);
        }
        let same_line = match self.last_line {
            Some(l) => l == line,
            None => false,
        };
        let line_changed = !same_line || !opt_str_is(&self.last_file, filename);
        let function_changed = !opt_str_is(&self.current_function, funcname);
        match self.mode {
            DebugMode::Running => {
                if line_changed && self.has_breakpoint(filename, line) {
                    Some(DebugBreakReason::Breakpoint)
                } else {
                    None
                }
            },
            DebugMode::Step => {
                if line_changed || function_changed {
                    Some(DebugBreakReason::Step)
                } else {
                    None
                }
            },
            DebugMode::StepOver => {
                if self.call_stack.len() <= self.step_depth {
                    if line_changed {
                        Some(DebugBreakReason::Step)
                    } else {
                        None
                    }
                } else if self.has_breakpoint(filename, line) {
                    Some(DebugBreakReason::Breakpoint)
                } else {
                    None
                }
            },
            DebugMode::StepOut => {
                if self.call_stack.len() < self.step_depth {
                    Some(DebugBreakReason::Step)
                } else if self.has_breakpoint(filename, line) {
                    Some(DebugBreakReason::Breakpoint)
                } else {
                    None
                }
            },
        }
    }

    /// Moves the top frame (if any) to the given location.
    fn retarget_top_frame(&mut self, filename: &str, line: i32, col: i32)
        ensures
            final(self)@ == (DebuggerView {
                call_stack: retarget_top(old(self)@.call_stack, filename@, line, col),
                ..old(self)@
            }),
    {
        let ghost old_stack = self.call_stack@;
        if let Some(mut frame) = self.call_stack.pop() {
            frame.location.line = line as u32;
            frame.location.column = Some(col as u32);
            frame.location.filename = owned(filename);
            self.call_stack.push(frame);
            assert(frames_view(self.call_stack@) =~= retarget_top(frames_view(old_stack), filename@, line, col));
        }
    }

    /// Tracks call-stack changes by observing function-name transitions.
    pub fn update_call_stack(&mut self, filename: &str, funcname: &str, line: i32, col: i32)
        ensures
            final(self)@ == spec_update_call_stack(old(self)@, filename@, funcname@, line, col),
    {
        let function_changed = !opt_str_is(&self.current_function, funcname);
        if !function_changed {
            self.retarget_top_frame(filename, line, col);
            return;
        }
        let stack_len = self.call_stack.len();
        let is_return = stack_len >= 2 && str_eq(self.call_stack[stack_len - 2].name.as_str(), funcname);
        if is_return {
            let ghost before = self.call_stack@;
            self.call_stack.pop();
            assert(frames_view(self.call_stack@) =~= frames_view(before).drop_last());
            self.retarget_top_frame(filename, line, col);
        } else {
            let ghost before = self.call_stack@;
            let frame = InternalFrame {
                name: owned(funcname),
                location: DebugLocation {
                    filename: owned(filename),
                    function_name: Some(owned(funcname)),
                    line: line as u32,
                    column: Some(col as u32),
                },
            };
            self.call_stack.push(frame);
            assert(frames_view(self.call_stack@) =~= frames_view(before).push(
                entered_frame(filename@, funcname@, line, col),
            ));
        }
        self.current_function = Some(owned(funcname));
    }

    /// Applies a [`DebugAction`] received from the host.
    ///
    /// The host always sends the full breakpoint set with every action, so it
    /// replaces the current one unconditionally; an empty list removes every
    /// breakpoint.
    pub fn handle_action(&mut self, action: DebugAction)
        ensures
            final(self)@ == spec_handle_action(
                old(self)@,
                action.action,
                breakpoints_view(action.breakpoints@),
            ),
    {
        self.breakpoints = action.breakpoints;
        match action.action {
            DebugActionType::Continue => {
                self.mode = DebugMode::Running;
            },
            DebugActionType::StepInto => {
                self.mode = DebugMode::Step;
            },
            DebugActionType::StepOver => {
                self.mode = DebugMode::StepOver;
                self.step_depth = self.call_stack.len();
            },
            DebugActionType::StepOut => {
                self.mode = DebugMode::StepOut;
                self.step_depth = self.call_stack.len();
            },
            DebugActionType::Disconnect => {
                self.enabled = false;
                self.mode = DebugMode::Running;
            },
        }
    }
}


// ---------------------------------------------------------------------------
// Trace events
// ---------------------------------------------------------------------------

/// The location reported for a trace event.
pub open spec fn break_location(filename: Seq<char>, funcname: Seq<char>, line: i32, col: i32) -> LocationView {
    LocationView {
        filename: filename,
        function_name: Some(funcname),
        line: line as u32,
        column: Some(col as u32),
    }
}

/// The frames reported at a break, most recent first, numbered from 0, with
/// no variables yet; an empty call stack yields one frame for the current
/// location.
pub open spec fn break_frames(
    stack: Seq<FrameView>,
    filename: Seq<char>,
    funcname: Seq<char>,
    line: i32,
    col: i32,
) -> Seq<StackFrameView> {
    if stack.len() == 0 {
        seq![
            StackFrameView {
                id: 0,
                name: funcname,
                location: break_location(filename, funcname, line, col),
                variables: Seq::empty(),
            },
        ]
    } else {
        Seq::new(
            stack.len(),
            |i: int|
                StackFrameView {
                    id: i as u32,
                    name: stack[stack.len() - 1 - i].name,
                    location: stack[stack.len() - 1 - i].location,
                    variables: Seq::empty(),
                },
        )
    }
}

/// The stop decision for a trace event: taken on the call stack updated for
/// the event, but against the function that ran before it, so that step mode
/// also stops when control moves to another function on the same line.
pub open spec fn spec_break_reason(
    s: DebuggerView,
    filename: Seq<char>,
    funcname: Seq<char>,
    line: i32,
    col: i32,
) -> Option<DebugBreakReason> {
    let s1 = spec_update_call_stack(s, filename, funcname, line, col);
    spec_should_break(DebuggerView { current_function: s.current_function, ..s1 }, filename, line, funcname)
}

/// The state after an enabled debugger observes a trace event.
pub open spec fn after_trace(
    s: DebuggerView,
    filename: Seq<char>,
    funcname: Seq<char>,
    line: i32,
    col: i32,
) -> DebuggerView {
    let s1 = spec_update_call_stack(s, filename, funcname, line, col);
    let s2 = DebuggerView { last_line: Some(line), last_file: Some(filename), ..s1 };
    if spec_break_reason(s, filename, funcname, line, col) is Some {
        DebuggerView { first_op: false, ..s2 }
    } else {
        s2
    }
}

/// The event an enabled debugger reports for a trace event, if it stops.
pub open spec fn trace_break(
    s: DebuggerView,
    filename: Seq<char>,
    funcname: Seq<char>,
    line: i32,
    col: i32,
) -> Option<BreakEventView> {
    let s1 = spec_update_call_stack(s, filename, funcname, line, col);
    match spec_break_reason(s, filename, funcname, line, col) {
        None => None,
        Some(reason) => Some(
            BreakEventView {
                reason: reason,
                location: break_location(filename, funcname, line, col),
                stack_frames: break_frames(s1.call_stack, filename, funcname, line, col),
                exception_message: None,
            },
        ),
    }
}

/// Observes one trace event of the runtime.
///
/// A disabled debugger ignores it. Otherwise the call stack is updated, the
/// break decision taken, and the location remembered; when execution must
/// stop, the returned event describes where and why. The frames carry no
/// variables: the runtime adds those of frame `id` before reporting it.
pub fn break_event_at(
    state: &mut DebuggerState,
    filename: &str,
    funcname: &str,
    line: i32,
    col: i32,
) -> (r: Option<DebugBreakEvent>)
    ensures
        !old(state)@.enabled ==> r is None && final(state)@ == old(state)@,
        old(state)@.enabled ==> final(state)@ == after_trace(old(state)@, filename@, funcname@, line, col),
        old(state)@.enabled ==> match trace_break(old(state)@, filename@, funcname@, line, col) {
            None => r is None,
            Some(ev) => r is Some && r->0@ == ev,
        },
{
    if !state.enabled {
        return None;
    }
    let entered_other = !opt_str_is(&state.current_function, funcname);
    state.update_call_stack(filename, funcname, line, col);
    let reason = match state.should_break(filename, line, funcname) {
        Some(r) => Some(r),
        None => if state.mode == DebugMode::Step && entered_other {
            Some(DebugBreakReason::Step)
        } else {
            None
        },
    };
    state.last_line = Some(line);
    state.last_file = Some(owned(filename));
    let reason = match reason {
        Some(r) => r,
        None => return None,
    };
    state.first_op = false;

    let ghost stack = state@.call_stack;
    let n = state.call_stack.len();
    let mut frames: Vec<DebugStackFrame> = Vec::new();
    let mut i: usize = 0;
    while i < n
        invariant
            n == state.call_stack.len(),
            stack == frames_view(state.call_stack@),
            i <= n,
            frames@.len() == i,
            forall|j: int|
                0 <= j < i ==> #[trigger] stack_frames_view(frames@)[j] == (StackFrameView {
                    id: j as u32,
                    name: stack[n - 1 - j].name,
                    location: stack[n - 1 - j].location,
                    variables: Seq::empty(),
                }),
        decreases n - i,
    {
        let f = &state.call_stack[n - 1 - i];
        let frame = DebugStackFrame {
            id: i as u32,
            name: f.name.clone(),
            location: clone_location(&f.location),
            variables: Vec::new(),
        };
        proof {
            assert(frame.variables@.map_values(|v: crate::shared::DebugVariable| v@) =~= Seq::empty());
            assert(stack[n - 1 - i] == state.call_stack@[n - 1 - i]@);
        }
        let ghost before = frames@;
        frames.push(frame);
        proof {
            assert(stack_frames_view(frames@) =~= stack_frames_view(before).push(frame@));
        }
        i = i + 1;
    }
    if frames.len() == 0 {
        let frame = DebugStackFrame {
            id: 0,
            name: owned(funcname),
            location: DebugLocation {
                filename: owned(filename),
                function_name: Some(owned(funcname)),
                line: line as u32,
                column: Some(col as u32),
            },
            variables: Vec::new(),
        };
        proof {
            assert(frame.variables@.map_values(|v: crate::shared::DebugVariable| v@) =~= Seq::empty());
        }
        frames.push(frame);
    }
    let ghost fv = stack_frames_view(frames@);
    assert(fv =~= break_frames(stack, filename@, funcname@, line, col));
    Some(DebugBreakEvent {
        reason,
        location: DebugLocation {
            filename: owned(filename),
            function_name: Some(owned(funcname)),
            line: line as u32,
            column: Some(col as u32),
        },
        stack_frames: frames,
        exception_message: None,
    })
}

} // verus!

verus! {

/// The variable type the runtime adapters report.
pub type Variable = crate::shared::DebugVariable;

} // verus!

verus! {

// ---------------------------------------------------------------------------
// Laws
// ---------------------------------------------------------------------------

/// Path matching is symmetric, and every path matches itself.
pub proof fn lemma_paths_match_symmetric(a: Seq<char>, b: Seq<char>)
    ensures
        spec_paths_match(a, b) == spec_paths_match(b, a),
        spec_paths_match(a, a),
{
}

/// The entry stop happens at most once: after the debugger has stopped, no
/// later trace event stops with reason `Entry` (until the state is reset or
/// the debugger re-enabled).
pub proof fn lemma_entry_stop_once(
    s: DebuggerView,
    filename: Seq<char>,
    funcname: Seq<char>,
    line: i32,
    col: i32,
    next_file: Seq<char>,
    next_func: Seq<char>,
    next_line: i32,
    next_col: i32,
)
    requires
        s.enabled,
        trace_break(s, filename, funcname, line, col) is Some,
    ensures
        trace_break(after_trace(s, filename, funcname, line, col), next_file, next_func, next_line, next_col)
            matches Some(e) ==> e.reason != DebugBreakReason::Entry,
{
}

/// While running, several trace events on one line of one file stop at most
/// once: after an event, the next one on the same line and file does not
/// stop.
pub proof fn lemma_same_line_stops_once(
    s: DebuggerView,
    filename: Seq<char>,
    funcname: Seq<char>,
    line: i32,
    col: i32,
    next_func: Seq<char>,
    next_col: i32,
)
    requires
        s.enabled,
        s.mode == DebugMode::Running,
    ensures
        trace_break(after_trace(s, filename, funcname, line, col), filename, next_func, line, next_col) is None,
{
}

/// Resetting keeps the configuration: whether the debugger is enabled,
/// whether it stops on entry, and the breakpoints.
pub proof fn lemma_reset_keeps_configuration(s: DebuggerView)
    ensures
        reset_view(s).enabled == s.enabled,
        reset_view(s).stop_on_entry == s.stop_on_entry,
        reset_view(s).breakpoints == s.breakpoints,
        reset_view(s).first_op,
        reset_view(s).call_stack.len() == 0,
{
}

/// Every host action replaces the whole breakpoint set, so an empty list
/// removes the last breakpoint.
pub proof fn lemma_action_replaces_breakpoints(s: DebuggerView, action: DebugActionType, bps: Seq<BreakpointView>)
    ensures
        spec_handle_action(s, action, bps).breakpoints == bps,
{
}

/// The call stack follows execution: after a trace event, the innermost
/// frame (if any) lies at the event's file, line and column; a change of
/// function always leaves a frame.
pub proof fn lemma_top_frame_follows_execution(
    s: DebuggerView,
    filename: Seq<char>,
    funcname: Seq<char>,
    line: i32,
    col: i32,
)
    ensures
        ({
            let stack = spec_update_call_stack(s, filename, funcname, line, col).call_stack;
            &&& s.current_function != Some(funcname) ==> stack.len() > 0
            &&& stack.len() > 0 ==> stack.last().location.filename == filename && stack.last().location.line
                == line as u32 && stack.last().location.column == Some(col as u32)
        }),
{
}

/// A reported break starts at the event's location: frame 0 lies at the
/// event's file, line and column, and is numbered 0.
pub proof fn lemma_break_frame_zero_at_event(
    s: DebuggerView,
    filename: Seq<char>,
    funcname: Seq<char>,
    line: i32,
    col: i32,
)
    ensures
        trace_break(s, filename, funcname, line, col) matches Some(ev) ==> {
            &&& ev.stack_frames.len() > 0
            &&& ev.stack_frames[0].id == 0
            &&& ev.stack_frames[0].location.filename == filename
            &&& ev.stack_frames[0].location.line == line as u32
            &&& ev.stack_frames[0].location.column == Some(col as u32)
        },
{
    lemma_top_frame_follows_execution(s, filename, funcname, line, col);
}

/// An enabled breakpoint at the event's line of a matching file stops a
/// running debugger when the line changed, and a debugger stepping over or
/// out while deeper than where the step began: breakpoints inside called
/// functions are honoured.
pub proof fn lemma_breakpoint_hit_stops(
    s: DebuggerView,
    filename: Seq<char>,
    funcname: Seq<char>,
    line: i32,
    col: i32,
    k: int,
)
    requires
        !(s.first_op && s.stop_on_entry),
        0 <= k < s.breakpoints.len(),
        s.breakpoints[k].enabled,
        s.breakpoints[k].line as i32 == line,
        spec_paths_match(s.breakpoints[k].filename, filename),
    ensures
        s.mode == DebugMode::Running && (s.last_line != Some(line) || s.last_file != Some(filename))
            ==> spec_break_reason(s, filename, funcname, line, col) == Some(DebugBreakReason::Breakpoint),
        s.mode == DebugMode::StepOver && spec_update_call_stack(s, filename, funcname, line, col).call_stack.len()
            > s.step_depth ==> spec_break_reason(s, filename, funcname, line, col) == Some(
            DebugBreakReason::Breakpoint,
        ),
        s.mode == DebugMode::StepOut && spec_update_call_stack(s, filename, funcname, line, col).call_stack.len()
            >= s.step_depth ==> spec_break_reason(s, filename, funcname, line, col) == Some(
            DebugBreakReason::Breakpoint,
        ),
{
    assert(bp_hits(s.breakpoints[k], filename, line));
}

/// After a reset the debugger runs freely: the mode is running and the step
/// depth 0, so without stop-on-entry and without a breakpoint at the event's
/// location the next trace event does not stop.
pub proof fn lemma_reset_runs_freely(
    s: DebuggerView,
    filename: Seq<char>,
    funcname: Seq<char>,
    line: i32,
    col: i32,
)
    requires
        !s.stop_on_entry,
        forall|k: int|
            0 <= k < s.breakpoints.len() ==> !(#[trigger] s.breakpoints[k].enabled && s.breakpoints[k].line as i32
                == line && spec_paths_match(s.breakpoints[k].filename, filename)),
    ensures
        reset_view(s).mode == DebugMode::Running,
        reset_view(s).step_depth == 0,
        trace_break(reset_view(s), filename, funcname, line, col) is None,
{
}

} // verus!
