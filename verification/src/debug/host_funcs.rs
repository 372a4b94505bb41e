//! The host side of a debug break: the guest reports where it stopped, the
//! DAP server asks about the stopped state, and a resume command ends the
//! break with the action the guest performs next.
//!
//! [`BreakSession`] holds the decisions; the host function that owns the
//! channel to the DAP server feeds it each request and sends what it answers.

use vstd::prelude::*;

use crate::debug::messages::{FrameSummary, VariableSummary, DapRequest, DapResponse, Scope, SourceLocation, StackFrame, StopReason, Variable};
use crate::shared::{
    breakpoints_view, clone_location, opt_view, BreakEventView, BreakpointView, DebugAction,
    DebugActionType, DebugBreakEvent, DebugBreakReason, DebugBreakpoint, DebugLocation,
    DebugStackFrame, LocationView, StackFrameView, VariableView,
};
use crate::text::{owned, push_str};

verus! {

broadcast use vstd::string::group_string_axioms;

// ---------------------------------------------------------------------------
// Conversions from the shared types to the DAP-server types
// ---------------------------------------------------------------------------

/// The server-side stop reason for a guest break reason.
pub open spec fn stop_reason_of(reason: DebugBreakReason) -> StopReason {
    match reason {
        DebugBreakReason::Entry => StopReason::Entry,
        DebugBreakReason::Breakpoint => StopReason::Breakpoint,
        DebugBreakReason::Step => StopReason::Step,
        DebugBreakReason::Pause => StopReason::Pause,
        DebugBreakReason::Exception => StopReason::Exception,
    }
}

impl From<DebugBreakReason> for StopReason {
    fn from(reason: DebugBreakReason) -> (r: Self) {
        match reason {
            DebugBreakReason::Entry => StopReason::Entry,
            DebugBreakReason::Breakpoint => StopReason::Breakpoint,
            DebugBreakReason::Step => StopReason::Step,
            DebugBreakReason::Pause => StopReason::Pause,
            DebugBreakReason::Exception => StopReason::Exception,
        }
    }
}

impl vstd::std_specs::convert::FromSpecImpl<DebugBreakReason> for StopReason {
    open spec fn obeys_from_spec() -> bool {
        true
    }

    open spec fn from_spec(reason: DebugBreakReason) -> StopReason {
        stop_reason_of(reason)
    }
}

impl From<DebugLocation> for SourceLocation {
    fn from(loc: DebugLocation) -> (r: Self) {
        SourceLocation {
            filename: loc.filename,
            function_name: loc.function_name,
            line: loc.line,
            column: loc.column,
        }
    }
}

impl vstd::std_specs::convert::FromSpecImpl<DebugLocation> for SourceLocation {
    open spec fn obeys_from_spec() -> bool {
        true
    }

    open spec fn from_spec(loc: DebugLocation) -> SourceLocation {
        SourceLocation {
            filename: loc.filename,
            function_name: loc.function_name,
            line: loc.line,
            column: loc.column,
        }
    }
}

impl From<DebugStackFrame> for StackFrame {
    fn from(frame: DebugStackFrame) -> (r: Self) {
        StackFrame { id: frame.id, name: frame.name, location: SourceLocation::from(frame.location) }
    }
}

impl vstd::std_specs::convert::FromSpecImpl<DebugStackFrame> for StackFrame {
    open spec fn obeys_from_spec() -> bool {
        true
    }

    open spec fn from_spec(frame: DebugStackFrame) -> StackFrame {
        StackFrame {
            id: frame.id,
            name: frame.name,
            location: SourceLocation {
                filename: frame.location.filename,
                function_name: frame.location.function_name,
                line: frame.location.line,
                column: frame.location.column,
            },
        }
    }
}


// ---------------------------------------------------------------------------
// The break session
// ---------------------------------------------------------------------------

/// The breakpoints set for one source file.
#[derive(Debug)]
pub struct FileBreakpoints {
    pub path: String,
    pub breakpoints: Vec<DebugBreakpoint>,
}

/// The view of the per-file breakpoint lists.
pub open spec fn files_view(fs: Seq<FileBreakpoints>) -> Seq<(Seq<char>, Seq<BreakpointView>)> {
    fs.map_values(|f: FileBreakpoints| (f.path@, breakpoints_view(f.breakpoints@)))
}

/// What the host does while the guest is stopped at one debug break.
pub struct BreakSession {
    event: DebugBreakEvent,
    files: Vec<FileBreakpoints>,
    next_bp_id: u32,
}

/// Mathematical model of a [`BreakSession`].
pub struct SessionView {
    /// The break being reported.
    pub event: BreakEventView,
    /// The breakpoints per source file, in the order the files were first set.
    pub files: Seq<(Seq<char>, Seq<BreakpointView>)>,
    /// The id the next breakpoint gets.
    pub next_bp_id: u32,
}

impl View for BreakSession {
    type V = SessionView;

    closed spec fn view(&self) -> SessionView {
        SessionView { event: self.event@, files: files_view(self.files@), next_bp_id: self.next_bp_id }
    }
}

/// All breakpoints, file after file.
pub open spec fn flatten(files: Seq<(Seq<char>, Seq<BreakpointView>)>) -> Seq<BreakpointView>
    decreases files.len(),
{
    if files.len() == 0 {
        Seq::empty()
    } else {
        flatten(files.drop_last()) + files.last().1
    }
}

/// The breakpoints created for `lines` of `path`, numbered from `first_id`.
pub open spec fn new_file_breakpoints(path: Seq<char>, lines: Seq<u32>, first_id: u32) -> Seq<BreakpointView> {
    Seq::new(
        lines.len(),
        |k: int| BreakpointView { id: (first_id + k) as u32, filename: path, line: lines[k], enabled: true },
    )
}

/// The index of the entry for `path`, if any.
pub open spec fn file_index(files: Seq<(Seq<char>, Seq<BreakpointView>)>, path: Seq<char>) -> Option<int>
    decreases files.len(),
{
    if files.len() == 0 {
        None
    } else if files.last().0 == path {
        Some(files.len() - 1)
    } else {
        file_index(files.drop_last(), path)
    }
}

/// The lists with the entry for `path` replaced by `bps` (or added last).
pub open spec fn set_file(
    files: Seq<(Seq<char>, Seq<BreakpointView>)>,
    path: Seq<char>,
    bps: Seq<BreakpointView>,
) -> Seq<(Seq<char>, Seq<BreakpointView>)> {
    match file_index(files, path) {
        Some(i) => files.update(i, (path, bps)),
        None => files.push((path, bps)),
    }
}

/// The breakpoint bookkeeping holds: ids start at 1; one entry per file;
/// every breakpoint is enabled, belongs to its entry's file and has an id
/// from 1 below `next_bp_id`; no two breakpoints share an id.
pub open spec fn table_wf(files: Seq<(Seq<char>, Seq<BreakpointView>)>, next_bp_id: u32) -> bool {
    &&& next_bp_id >= 1
    &&& forall|i: int, j: int| 0 <= i < j < files.len() ==> files[i].0 != files[j].0
    &&& forall|i: int, a: int|
        #![trigger files[i].1[a]]
        0 <= i < files.len() && 0 <= a < files[i].1.len() ==> {
            let b = files[i].1[a];
            &&& b.enabled
            &&& b.filename == files[i].0
            &&& 1 <= b.id < next_bp_id
        }
    &&& forall|i: int, a: int, j: int, c: int|
        #![trigger files[i].1[a], files[j].1[c]]
        0 <= i < files.len() && 0 <= a < files[i].1.len() && 0 <= j < files.len() && 0 <= c
            < files[j].1.len() && (i != j || a != c) ==> files[i].1[a].id != files[j].1[c].id
}

/// The session's breakpoint bookkeeping holds.
pub open spec fn session_wf(s: SessionView) -> bool {
    table_wf(s.files, s.next_bp_id)
}

/// Mathematical model of a [`BreakpointTable`].
pub struct TableView {
    /// The breakpoints per source file, in the order the files were first set.
    pub files: Seq<(Seq<char>, Seq<BreakpointView>)>,
    /// The id the next breakpoint gets.
    pub next_bp_id: u32,
}

/// The breakpoints the host keeps from one debug break to the next.
#[derive(Debug)]
pub struct BreakpointTable {
    files: Vec<FileBreakpoints>,
    next_bp_id: u32,
}

impl View for BreakpointTable {
    type V = TableView;

    closed spec fn view(&self) -> TableView {
        TableView { files: files_view(self.files@), next_bp_id: self.next_bp_id }
    }
}

/// The session that serves a break, opened on a table.
pub open spec fn opened(event: BreakEventView, t: TableView) -> SessionView {
    SessionView { event: event, files: t.files, next_bp_id: t.next_bp_id }
}

/// The table a session leaves for the next break.
pub open spec fn ended_table(s: SessionView) -> TableView {
    TableView { files: s.files, next_bp_id: s.next_bp_id }
}

/// Every breakpoint of the lists, file after file.
fn collect(files: &Vec<FileBreakpoints>) -> (r: Vec<DebugBreakpoint>)
    ensures
        breakpoints_view(r@) == flatten(files_view(files@)),
{
    let mut out: Vec<DebugBreakpoint> = Vec::new();
    let mut i: usize = 0;
    while i < files.len()
        invariant
            i <= files.len(),
            breakpoints_view(out@) == flatten(files_view(files@).take(i as int)),
        decreases files.len() - i,
    {
        let f = &files[i];
        let mut k: usize = 0;
        let ghost base = breakpoints_view(out@);
        while k < f.breakpoints.len()
            invariant
                k <= f.breakpoints.len(),
                breakpoints_view(out@) == base + breakpoints_view(f.breakpoints@).take(k as int),
            decreases f.breakpoints.len() - k,
        {
            let b = &f.breakpoints[k];
            let ghost before = out@;
            out.push(DebugBreakpoint { id: b.id, filename: b.filename.clone(), line: b.line, enabled: b.enabled });
            assert(breakpoints_view(out@) =~= breakpoints_view(before).push(b@));
            assert(breakpoints_view(f.breakpoints@).take(k + 1) =~= breakpoints_view(f.breakpoints@).take(
                k as int,
            ).push(b@));
            k = k + 1;
        }
        let ghost fv = files_view(files@);
        assert(breakpoints_view(f.breakpoints@).take(f.breakpoints.len() as int) =~= breakpoints_view(
            f.breakpoints@,
        ));
        assert(fv.take(i + 1).drop_last() =~= fv.take(i as int));
        i = i + 1;
    }
    assert(files_view(files@).take(files.len() as int) =~= files_view(files@));
    out
}

impl BreakpointTable {
    #[verifier::type_invariant]
    spec fn inv(self) -> bool {
        table_wf(files_view(self.files@), self.next_bp_id)
    }

    /// No breakpoints yet; ids start at 1.
    pub fn new() -> (r: Self)
        ensures
            r@ == (TableView { files: Seq::empty(), next_bp_id: 1 }),
    {
        let files: Vec<FileBreakpoints> = Vec::new();
        assert(files_view(files@) =~= Seq::empty());
        BreakpointTable { files, next_bp_id: 1 }
    }

    /// The action that resumes execution when no DAP server answers: continue
    /// with every breakpoint of the table.
    pub fn continue_action(&self) -> (r: DebugAction)
        ensures
            r.action == DebugActionType::Continue,
            breakpoints_view(r.breakpoints@) == flatten(self@.files),
    {
        DebugAction { action: DebugActionType::Continue, breakpoints: collect(&self.files) }
    }
}

/// The frame the DAP server sees for a guest frame.
pub open spec fn frame_summary(f: StackFrameView) -> FrameSummary {
    FrameSummary { id: f.id, name: f.name, location: f.location }
}

/// The variable the DAP server sees for a guest variable: no children.
pub open spec fn variable_summary(v: VariableView) -> VariableSummary {
    VariableSummary { name: v.name, value: v.value, value_type: v.value_type, variables_reference: 0 }
}

/// The index of the first frame with the given id.
pub open spec fn frame_with_id(frames: Seq<StackFrameView>, id: u32) -> Option<int>
    decreases frames.len(),
{
    if frames.len() == 0 {
        None
    } else if frames[0].id == id {
        Some(0)
    } else {
        match frame_with_id(frames.skip(1), id) {
            Some(k) => Some(k + 1),
            None => None,
        }
    }
}

/// The variables reported for a variables reference: those of the frame
/// whose id is the reference minus 1000 (saturating), or none.
pub open spec fn variables_for(frames: Seq<StackFrameView>, reference: u32) -> Seq<VariableSummary> {
    let frame_id = if reference >= 1000 {
        (reference - 1000) as u32
    } else {
        0u32
    };
    match frame_with_id(frames, frame_id) {
        Some(k) => frames[k].variables.map_values(|v: VariableView| variable_summary(v)),
        None => Seq::empty(),
    }
}

/// What the session does with one request.
pub enum BreakStep {
    /// Nothing is sent; keep waiting.
    Ignore,
    /// Send this response and keep waiting.
    Reply(DapResponse),
    /// Send this response and end the break with this action.
    Finish(DapResponse, DebugAction),
}

/// The action that resumes execution with every breakpoint of the session.
pub open spec fn resumes_with(a: DebugAction, kind: DebugActionType, s: SessionView) -> bool {
    a.action == kind && breakpoints_view(a.breakpoints@) == flatten(s.files)
}

/// The response that reports the stop to the DAP server.
pub open spec fn is_stopped_response(r: DapResponse, e: BreakEventView) -> bool {
    r matches DapResponse::Stopped { reason, location, hit_breakpoint_ids, exception_text } && reason
        == stop_reason_of(e.reason) && location@ == e.location && hit_breakpoint_ids is None
        && opt_view(exception_text) == e.exception_message
}

impl BreakSession {
    /// The session's model.
    pub closed spec fn spec_wf(&self) -> bool {
        session_wf(self@)
    }

    /// Starts the session for a break with the breakpoints kept so far; the
    /// response reports the stop.
    pub fn open(event: DebugBreakEvent, table: BreakpointTable) -> (r: (BreakSession, DapResponse))
        ensures
            r.0@ == opened(event@, table@),
            r.0.spec_wf(),
            is_stopped_response(r.1, event@),
    {
        proof {
            use_type_invariant(&table);
        }
        let stopped = DapResponse::Stopped {
            reason: StopReason::from(event.reason),
            location: SourceLocation::from(clone_location(&event.location)),
            hit_breakpoint_ids: None,
            exception_text: crate::shared::clone_opt_string(&event.exception_message),
        };
        let BreakpointTable { files, next_bp_id } = table;
        let s = BreakSession { event, files, next_bp_id };
        (s, stopped)
    }

    /// Ends the session, keeping its breakpoints for the next break.
    pub fn into_table(self) -> (r: BreakpointTable)
        requires
            self.spec_wf(),
        ensures
            r@ == ended_table(self@),
    {
        BreakpointTable { files: self.files, next_bp_id: self.next_bp_id }
    }

    /// Every breakpoint of the session, file after file.
    pub fn collect_breakpoints(&self) -> (r: Vec<DebugBreakpoint>)
        ensures
            breakpoints_view(r@) == flatten(self@.files),
    {
        collect(&self.files)
    }

    /// The action taken when the channel to the DAP server fails: continue
    /// with every breakpoint of the session.
    pub fn continue_action(&self) -> (r: DebugAction)
        ensures
            resumes_with(r, DebugActionType::Continue, self@),
    {
        DebugAction { action: DebugActionType::Continue, breakpoints: self.collect_breakpoints() }
    }
}


proof fn lemma_file_index(files: Seq<(Seq<char>, Seq<BreakpointView>)>, path: Seq<char>)
    ensures
        file_index(files, path) matches Some(i) ==> 0 <= i < files.len() && files[i].0 == path,
        file_index(files, path) is None ==> forall|i: int| 0 <= i < files.len() ==> files[i].0 != path,
    decreases files.len(),
{
    if files.len() > 0 {
        lemma_file_index(files.drop_last(), path);
        assert forall|i: int| 0 <= i < files.len() - 1 implies files.drop_last()[i] == files[i] by {}
    }
}

impl BreakSession {
    /// The index of the entry for `path`, if any.
    fn find_file(&self, path: &str) -> (r: Option<usize>)
        ensures
            match r {
                Some(i) => file_index(self@.files, path@) == Some(i as int),
                None => file_index(self@.files, path@) is None,
            },
    {
        let ghost fv = self@.files;
        let mut i = self.files.len();
        assert(fv.take(i as int) =~= fv);
        while i > 0
            invariant
                i <= self.files.len(),
                fv == files_view(self.files@),
                file_index(fv, path@) == file_index(fv.take(i as int), path@),
            decreases i,
        {
            assert(fv.take(i as int).last() == fv[i - 1]);
            if crate::text::str_eq(self.files[i - 1].path.as_str(), path) {
                return Some(i - 1);
            }
            assert(fv.take(i as int).drop_last() =~= fv.take(i - 1));
            i = i - 1;
        }
        None
    }

    /// Replaces all breakpoints of `source_path` by one per line (the DAP
    /// `setBreakpoints` request replaces, it does not accumulate); the new
    /// breakpoints get the next ids in order.
    pub fn set_breakpoints(&mut self, source_path: String, lines: Vec<u32>)
        requires
            old(self).spec_wf(),
            old(self)@.next_bp_id + lines.len() <= u32::MAX,
        ensures
            final(self).spec_wf(),
            final(self)@ == (SessionView {
                files: set_file(
                    old(self)@.files,
                    source_path@,
                    new_file_breakpoints(source_path@, lines@, old(self)@.next_bp_id),
                ),
                next_bp_id: (old(self)@.next_bp_id + lines.len()) as u32,
                ..old(self)@
            }),
    {
        let ghost old_view = self@;
        let first = self.next_bp_id;
        let mut file_bps: Vec<DebugBreakpoint> = Vec::new();
        let mut k: usize = 0;
        while k < lines.len()
            invariant
                k <= lines.len(),
                first + lines.len() <= u32::MAX,
                breakpoints_view(file_bps@) == new_file_breakpoints(source_path@, lines@, first).take(k as int),
            decreases lines.len() - k,
        {
            let ghost before = file_bps@;
            let bp = DebugBreakpoint {
                id: first + k as u32,
                filename: source_path.clone(),
                line: lines[k],
                enabled: true,
            };
            assert(bp@ == new_file_breakpoints(source_path@, lines@, first)[k as int]);
            file_bps.push(bp);
            assert(breakpoints_view(file_bps@) =~= breakpoints_view(before).push(bp@));
            assert(breakpoints_view(file_bps@) =~= new_file_breakpoints(source_path@, lines@, first).take(k + 1));
            k = k + 1;
        }
        let ghost nb = new_file_breakpoints(source_path@, lines@, first);
        assert(nb.take(lines.len() as int) =~= nb);
        let found = self.find_file(source_path.as_str());
        proof {
            lemma_file_index(old_view.files, source_path@);
        }
        let entry = FileBreakpoints { path: source_path, breakpoints: file_bps };
        match found {
            Some(i) => {
                self.files.set(i, entry);
            },
            None => {
                self.files.push(entry);
            },
        }
        self.next_bp_id = first + lines.len() as u32;
        assert(files_view(self.files@) =~= set_file(old_view.files, entry.path@, nb));
        proof {
            let s = self@;
            let nf = s.files;
            let of = old_view.files;
            assert(session_wf(old_view));
            // Which entry holds `source_path`, and that all others are unchanged.
            let idx: int = match found {
                Some(i) => i as int,
                None => of.len() as int,
            };
            assert(nf[idx] == (source_path@, nb));
            assert(nf.len() == if found is Some { of.len() } else { of.len() + 1 });
            assert forall|i: int| 0 <= i < nf.len() && i != idx implies nf[i] == of[i] && of[i].0
                != source_path@ by {
                if found is Some {
                    assert(of[idx].0 == source_path@);
                }
            }
            assert forall|i: int, j: int| 0 <= i < j < nf.len() implies nf[i].0 != nf[j].0 by {}
            assert forall|i: int, a: int|
                #![trigger nf[i].1[a]]
                0 <= i < nf.len() && 0 <= a < nf[i].1.len() implies {
                    let b = nf[i].1[a];
                    &&& b.enabled
                    &&& b.filename == nf[i].0
                    &&& 1 <= b.id < s.next_bp_id
                } by {
                if i == idx {
                    assert(nf[i].1[a] == nb[a]);
                    assert(nb[a].id == first + a);
                    assert(nb[a].filename == source_path@);
                } else {
                    assert(of[i].1[a] == nf[i].1[a]);
                    assert(1 <= of[i].1[a].id < old_view.next_bp_id);
                }
            }
            assert forall|i: int, a: int, j: int, c: int|
                #![trigger nf[i].1[a], nf[j].1[c]]
                0 <= i < nf.len() && 0 <= a < nf[i].1.len() && 0 <= j < nf.len() && 0 <= c
                    < nf[j].1.len() && (i != j || a != c) implies nf[i].1[a].id != nf[j].1[c].id by {
                if i == idx && j == idx {
                } else if i == idx {
                    assert(of[j].1[c] == nf[j].1[c]);
                } else if j == idx {
                    assert(of[i].1[a] == nf[i].1[a]);
                } else {
                    assert(of[i].1[a] == nf[i].1[a]);
                    assert(of[j].1[c] == nf[j].1[c]);
                }
            }
        }
    }
}


/// The first frame of a stack-trace page: `start`, 0 when missing, at most
/// the number of frames.
pub open spec fn page_start(n: nat, start: Option<u32>) -> int {
    let s = match start {
        Some(v) => v as int,
        None => 0,
    };
    if s < n {
        s
    } else {
        n as int
    }
}

/// The end of a stack-trace page: at most `levels` frames after its start;
/// a missing or zero `levels` means every remaining frame.
pub open spec fn page_end(n: nat, start: Option<u32>, levels: Option<u32>) -> int {
    let lo = page_start(n, start);
    match levels {
        Some(l) => if l > 0 && lo + l < n {
            lo + l
        } else {
            n as int
        },
        None => n as int,
    }
}

/// A stack-trace response listing the requested page of the break's frames,
/// and the number of all frames.
pub open spec fn stack_trace_reply(r: DapResponse, e: BreakEventView, start: Option<u32>, levels: Option<u32>) -> bool {
    let n = e.stack_frames.len();
    r matches DapResponse::StackTrace { frames, total_frames } && frames@.map_values(
        |f: StackFrame| f@,
    ) == e.stack_frames.map_values(|f: StackFrameView| frame_summary(f)).subrange(
        page_start(n, start),
        page_end(n, start, levels),
    ) && total_frames == n as u32
}

/// A scopes response with the single `Locals` scope of a frame, whose
/// variables reference is the frame id plus 1000.
pub open spec fn scopes_reply(r: DapResponse, frame_id: u32) -> bool {
    r matches DapResponse::Scopes { scopes } && scopes@.len() == 1 && scopes@[0].name@ == "Locals"@
        && scopes@[0].variables_reference == frame_id + 1000 && !scopes@[0].expensive
}

/// A variables response with the variables of the referenced frame.
pub open spec fn variables_reply(r: DapResponse, e: BreakEventView, reference: u32) -> bool {
    r matches DapResponse::Variables { variables } && variables@.map_values(|v: Variable| v@)
        == variables_for(e.stack_frames, reference)
}

/// An evaluate response saying that evaluation is not implemented.
pub open spec fn evaluate_reply(r: DapResponse, expression: Seq<char>) -> bool {
    r matches DapResponse::Evaluate { result, value_type, variables_reference } && result@
        == "(evaluation not implemented: "@ + expression + ")"@ && opt_view(value_type) == Some(
        "string"@,
    ) && variables_reference == 0
}

/// A resume request ends the break with its action and `reply`.
pub open spec fn finishes(r: BreakStep, reply_continued: bool, kind: DebugActionType, s: SessionView) -> bool {
    r matches BreakStep::Finish(resp, a) && (if reply_continued {
        resp is Continued
    } else {
        resp is Disconnected
    }) && resumes_with(a, kind, s)
}

/// What the session owes for one request, given its state before and after.
pub open spec fn step_spec(request: DapRequest, old: SessionView, r: BreakStep, new: SessionView) -> bool {
    match request {
        DapRequest::Continue => new == old && finishes(r, true, DebugActionType::Continue, old),
        DapRequest::Next => new == old && finishes(r, true, DebugActionType::StepOver, old),
        DapRequest::StepIn => new == old && finishes(r, true, DebugActionType::StepInto, old),
        DapRequest::StepOut => new == old && finishes(r, true, DebugActionType::StepOut, old),
        DapRequest::Disconnect { .. } => new == old && finishes(r, false, DebugActionType::Disconnect, old),
        DapRequest::SetBreakpoints { source_path, lines } => r is Ignore && new == (SessionView {
            files: set_file(old.files, source_path@, new_file_breakpoints(source_path@, lines@, old.next_bp_id)),
            next_bp_id: (old.next_bp_id + lines@.len()) as u32,
            ..old
        }),
        DapRequest::StackTrace { start_frame, levels } => new == old && (r matches BreakStep::Reply(resp)
            && stack_trace_reply(resp, old.event, start_frame, levels)),
        DapRequest::Scopes { frame_id } => new == old && (r matches BreakStep::Reply(resp)
            && scopes_reply(resp, frame_id)),
        DapRequest::Variables { variables_reference } => new == old && (r matches BreakStep::Reply(resp)
            && variables_reply(resp, old.event, variables_reference)),
        DapRequest::Evaluate { expression, .. } => new == old && (r matches BreakStep::Reply(resp)
            && evaluate_reply(resp, expression@)),
        _ => new == old && r is Ignore,
    }
}

/// The requests a session can take: frame ids of scopes must leave room for
/// the 1000 offset, and new breakpoints must not run out of ids.
pub open spec fn step_allowed(request: DapRequest, s: SessionView) -> bool {
    &&& request matches DapRequest::Scopes { frame_id } ==> frame_id + 1000 <= u32::MAX
    &&& request matches DapRequest::SetBreakpoints { lines, .. } ==> s.next_bp_id + lines@.len() <= u32::MAX
}

impl BreakSession {
    fn stack_trace_response(&self, start_frame: Option<u32>, levels: Option<u32>) -> (r: DapResponse)
        ensures
            stack_trace_reply(r, self@.event, start_frame, levels),
    {
        let ghost ev = self@.event;
        let ghost all = ev.stack_frames.map_values(|f: StackFrameView| frame_summary(f));
        let n = self.event.stack_frames.len();
        let s: usize = match start_frame {
            Some(v) => v as usize,
            None => 0,
        };
        let lo: usize = if s < n {
            s
        } else {
            n
        };
        let hi: usize = match levels {
            Some(l) => if l > 0 && (l as usize) < n - lo {
                lo + l as usize
            } else {
                n
            },
            None => n,
        };
        assert(lo == page_start(n as nat, start_frame));
        assert(hi == page_end(n as nat, start_frame, levels));
        let mut frames: Vec<StackFrame> = Vec::new();
        let mut i: usize = lo;
        while i < hi
            invariant
                n == self.event.stack_frames.len(),
                ev == self@.event,
                all == ev.stack_frames.map_values(|f: StackFrameView| frame_summary(f)),
                lo <= i <= hi <= n,
                frames@.map_values(|f: StackFrame| f@) == all.subrange(lo as int, i as int),
            decreases hi - i,
        {
            let f = &self.event.stack_frames[i];
            let g = StackFrame {
                id: f.id,
                name: f.name.clone(),
                location: SourceLocation::from(clone_location(&f.location)),
            };
            let ghost before = frames@;
            proof {
                assert(ev.stack_frames[i as int] == f@);
            }
            frames.push(g);
            assert(frames@.map_values(|f: StackFrame| f@) =~= before.map_values(|f: StackFrame| f@).push(g@));
            assert(frames@.map_values(|f: StackFrame| f@) =~= all.subrange(lo as int, i + 1));
            i = i + 1;
        }
        let total = n as u32;
        DapResponse::StackTrace { frames, total_frames: total }
    }

    fn scopes_response(frame_id: u32) -> (r: DapResponse)
        requires
            frame_id + 1000 <= u32::MAX,
        ensures
            scopes_reply(r, frame_id),
    {
        let mut scopes: Vec<Scope> = Vec::new();
        scopes.push(Scope { name: owned("Locals"), variables_reference: frame_id + 1000, expensive: false });
        DapResponse::Scopes { scopes }
    }

    fn variables_response(&self, variables_reference: u32) -> (r: DapResponse)
        ensures
            variables_reply(r, self@.event, variables_reference),
    {
        let ghost ev = self@.event;
        let frame_id = variables_reference.saturating_sub(1000);
        let n = self.event.stack_frames.len();
        let mut i: usize = 0;
        assert(ev.stack_frames.skip(0) =~= ev.stack_frames);
        while i < n
            invariant
                n == self.event.stack_frames.len(),
                ev == self@.event,
                i <= n,
                frame_id == (if variables_reference >= 1000 {
                    (variables_reference - 1000) as u32
                } else {
                    0u32
                }),
                frame_with_id(ev.stack_frames, frame_id) == match frame_with_id(ev.stack_frames.skip(i as int), frame_id) {
                    Some(k) => Some(k + i),
                    None => None,
                },
            decreases n - i,
        {
            assert(ev.stack_frames.skip(i as int)[0] == ev.stack_frames[i as int]);
            assert(ev.stack_frames.skip(i as int).skip(1) =~= ev.stack_frames.skip(i + 1));
            if self.event.stack_frames[i].id == frame_id {
                let f = &self.event.stack_frames[i];
                let ghost fv = ev.stack_frames[i as int];
                assert(fv == f@);
                assert(frame_with_id(ev.stack_frames.skip(i as int), frame_id) == Some(0int));
                assert(frame_with_id(ev.stack_frames, frame_id) == Some(i as int));
                let mut vars: Vec<Variable> = Vec::new();
                let mut k: usize = 0;
                while k < f.variables.len()
                    invariant
                        k <= f.variables.len(),
                        fv == f@,
                        vars@.map_values(|v: Variable| v@) == fv.variables.map_values(
                            |v: VariableView| variable_summary(v),
                        ).take(k as int),
                    decreases f.variables.len() - k,
                {
                    let v = &f.variables[k];
                    let w = Variable {
                        name: v.name.clone(),
                        value: v.value.clone(),
                        value_type: crate::shared::clone_opt_string(&v.value_type),
                        variables_reference: 0,
                    };
                    let ghost before = vars@;
                    assert(fv.variables[k as int] == v@);
                    vars.push(w);
                    assert(vars@.map_values(|v: Variable| v@) =~= before.map_values(|v: Variable| v@).push(w@));
                    assert(vars@.map_values(|v: Variable| v@) =~= fv.variables.map_values(
                        |v: VariableView| variable_summary(v),
                    ).take(k + 1));
                    k = k + 1;
                }
                assert(fv.variables.map_values(|v: VariableView| variable_summary(v)).take(
                    f.variables.len() as int,
                ) =~= fv.variables.map_values(|v: VariableView| variable_summary(v)));
                return DapResponse::Variables { variables: vars };
            }
            i = i + 1;
        }
        assert(ev.stack_frames.skip(n as int).len() == 0);
        let vars: Vec<Variable> = Vec::new();
        assert(vars@.map_values(|v: Variable| v@) =~= Seq::<VariableSummary>::empty());
        DapResponse::Variables { variables: vars }
    }

    fn evaluate_response(expression: &String) -> (r: DapResponse)
        ensures
            evaluate_reply(r, expression@),
    {
        let mut result = String::new();
        push_str(&mut result, "(evaluation not implemented: ");
        push_str(&mut result, expression.as_str());
        push_str(&mut result, ")");
        DapResponse::Evaluate { result, value_type: Some(owned("string")), variables_reference: 0 }
    }

    /// Whether [`BreakSession::step`] may take `request`: a scopes request's
    /// variables reference and the new breakpoints' ids must fit in `u32`.
    pub fn can_step(&self, request: &DapRequest) -> (r: bool)
        ensures
            r == step_allowed(*request, self@),
    {
        match request {
            DapRequest::Scopes { frame_id } => *frame_id <= u32::MAX - 1000,
            DapRequest::SetBreakpoints { lines, .. } => lines.len() <= (u32::MAX - self.next_bp_id) as usize,
            _ => true,
        }
    }

    /// Handles one request from the DAP server while the guest is stopped.
    ///
    /// Resume requests (continue, next, step in, step out, disconnect) end
    /// the break with the matching action and every breakpoint set so far;
    /// `setBreakpoints` replaces the breakpoints of one file and is not
    /// answered (the server answers the client itself); stack trace, scopes,
    /// variables and evaluate requests are answered from the break event;
    /// other requests are ignored.
    pub fn step(&mut self, request: DapRequest) -> (r: BreakStep)
        requires
            old(self).spec_wf(),
            step_allowed(request, old(self)@),
        ensures
            final(self).spec_wf(),
            step_spec(request, old(self)@, r, final(self)@),
    {
        match request {
            DapRequest::Continue => BreakStep::Finish(
                DapResponse::Continued,
                DebugAction { action: DebugActionType::Continue, breakpoints: self.collect_breakpoints() },
            ),
            DapRequest::Next => BreakStep::Finish(
                DapResponse::Continued,
                DebugAction { action: DebugActionType::StepOver, breakpoints: self.collect_breakpoints() },
            ),
            DapRequest::StepIn => BreakStep::Finish(
                DapResponse::Continued,
                DebugAction { action: DebugActionType::StepInto, breakpoints: self.collect_breakpoints() },
            ),
            DapRequest::StepOut => BreakStep::Finish(
                DapResponse::Continued,
                DebugAction { action: DebugActionType::StepOut, breakpoints: self.collect_breakpoints() },
            ),
            DapRequest::Disconnect { .. } => BreakStep::Finish(
                DapResponse::Disconnected,
                DebugAction { action: DebugActionType::Disconnect, breakpoints: self.collect_breakpoints() },
            ),
            DapRequest::SetBreakpoints { source_path, lines } => {
                self.set_breakpoints(source_path, lines);
                BreakStep::Ignore
            },
            DapRequest::StackTrace { start_frame, levels } => BreakStep::Reply(
                self.stack_trace_response(start_frame, levels),
            ),
            DapRequest::Scopes { frame_id } => BreakStep::Reply(Self::scopes_response(frame_id)),
            DapRequest::Variables { variables_reference } => BreakStep::Reply(
                self.variables_response(variables_reference),
            ),
            DapRequest::Evaluate { expression, .. } => BreakStep::Reply(Self::evaluate_response(&expression)),
            _ => BreakStep::Ignore,
        }
    }
}

} // verus!

verus! {

// ---------------------------------------------------------------------------
// Laws
// ---------------------------------------------------------------------------

/// Breakpoints in file `path`.
pub open spec fn in_file(path: Seq<char>) -> spec_fn(BreakpointView) -> bool {
    |b: BreakpointView| b.filename == path
}

/// One entry per file, each holding breakpoints of its own file.
pub open spec fn files_consistent(files: Seq<(Seq<char>, Seq<BreakpointView>)>) -> bool {
    &&& forall|i: int, j: int| 0 <= i < j < files.len() ==> files[i].0 != files[j].0
    &&& forall|i: int, a: int|
        #![trigger files[i].1[a]]
        0 <= i < files.len() && 0 <= a < files[i].1.len() ==> files[i].1[a].filename == files[i].0
}

proof fn lemma_filter_all_or_none(bs: Seq<BreakpointView>, key: Seq<char>, path: Seq<char>)
    requires
        forall|a: int| 0 <= a < bs.len() ==> (#[trigger] bs[a]).filename == key,
    ensures
        key == path ==> bs.filter(in_file(path)) == bs,
        key != path ==> bs.filter(in_file(path)) == Seq::<BreakpointView>::empty(),
    decreases bs.len(),
{
    reveal(Seq::filter);
    if bs.len() > 0 {
        lemma_filter_all_or_none(bs.drop_last(), key, path);
        assert(bs.drop_last().push(bs.last()) =~= bs);
    } else {
        assert(bs =~= Seq::<BreakpointView>::empty());
    }
}

proof fn lemma_flatten_filter(files: Seq<(Seq<char>, Seq<BreakpointView>)>, path: Seq<char>)
    requires
        files_consistent(files),
    ensures
        flatten(files).filter(in_file(path)) == match file_index(files, path) {
            Some(i) => files[i].1,
            None => Seq::<BreakpointView>::empty(),
        },
    decreases files.len(),
{
    reveal(Seq::filter);
    if files.len() == 0 {
    } else {
        let init = files.drop_last();
        assert(files_consistent(init)) by {
            assert forall|i: int, a: int|
                #![trigger init[i].1[a]]
                0 <= i < init.len() && 0 <= a < init[i].1.len() implies init[i].1[a].filename == init[i].0 by {
                assert(init[i] == files[i]);
            }
        }
        lemma_flatten_filter(init, path);
        let last = files.last();
        assert forall|a: int| 0 <= a < last.1.len() implies (#[trigger] last.1[a]).filename == last.0 by {
            assert(files[files.len() - 1].1[a].filename == files[files.len() - 1].0);
        }
        lemma_filter_all_or_none(last.1, last.0, path);
        Seq::filter_distributes_over_add(flatten(init), last.1, in_file(path));
        if last.0 == path {
            lemma_file_index(init, path);
            assert(file_index(init, path) is None) by {
                if file_index(init, path) is Some {
                    let i = file_index(init, path)->0;
                    assert(files[i].0 == path);
                }
            }
            assert(Seq::<BreakpointView>::empty() + last.1 =~= last.1);
        } else {
            assert(file_index(files, path) == file_index(init, path));
            lemma_file_index(init, path);
            match file_index(init, path) {
                Some(i) => {
                    assert(init[i] == files[i]);
                    assert(init[i].1 + Seq::<BreakpointView>::empty() =~= init[i].1);
                },
                None => {
                    assert(Seq::<BreakpointView>::empty() + Seq::<BreakpointView>::empty() =~= Seq::<BreakpointView>::empty());
                },
            }
        }
    }
}

/// The lists after replacing the entry for `path` keep one entry per file,
/// hold `bps` at the entry for `path`, and keep the entry of every other
/// file where it was.
proof fn lemma_set_file_entries(
    of: Seq<(Seq<char>, Seq<BreakpointView>)>,
    path: Seq<char>,
    bps: Seq<BreakpointView>,
    other: Seq<char>,
)
    requires
        files_consistent(of),
        forall|a: int| 0 <= a < bps.len() ==> (#[trigger] bps[a]).filename == path,
        other != path,
    ensures
        files_consistent(set_file(of, path, bps)),
        file_index(set_file(of, path, bps), path) matches Some(i) && set_file(of, path, bps)[i].1 == bps,
        match file_index(set_file(of, path, bps), other) {
            Some(i) => file_index(of, other) matches Some(k) && set_file(of, path, bps)[i].1 == of[k].1,
            None => file_index(of, other) is None,
        },
{
    let nf = set_file(of, path, bps);
    lemma_file_index(of, path);
    let idx: int = match file_index(of, path) {
        Some(i) => i,
        None => of.len() as int,
    };
    assert(nf[idx] == (path, bps));
    assert forall|i: int| 0 <= i < nf.len() && i != idx implies nf[i] == of[i] && of[i].0 != path by {
        if file_index(of, path) is Some {
            assert(of[idx].0 == path);
        }
    }
    assert(files_consistent(nf)) by {
        assert forall|i: int, a: int|
            #![trigger nf[i].1[a]]
            0 <= i < nf.len() && 0 <= a < nf[i].1.len() implies nf[i].1[a].filename == nf[i].0 by {
            if i != idx {
                assert(of[i].1[a] == nf[i].1[a]);
            }
        }
    }
    lemma_file_index(nf, path);
    lemma_file_index(nf, other);
    lemma_file_index(of, other);
    match file_index(nf, path) {
        Some(i) => {
            if i != idx {
                assert(nf[i].0 != path);
            }
        },
        None => {
            assert(nf[idx].0 == path);
        },
    }
    match file_index(nf, other) {
        Some(i) => {
            assert(i != idx);
            match file_index(of, other) {
                Some(k) => {
                    if k != i {
                        assert(of[k].0 == other);
                        assert(k != idx);
                        assert(nf[k] == of[k]);
                    }
                },
                None => {
                    assert(of[i].0 == other);
                },
            }
        },
        None => {
            match file_index(of, other) {
                Some(k) => {
                    assert(k != idx);
                    assert(nf[k] == of[k]);
                },
                None => {},
            }
        },
    }
}

/// `setBreakpoints` replaces, it does not accumulate: afterwards the
/// session's breakpoints in `path` are exactly the new ones, and those of
/// every other file are as before.
pub proof fn lemma_set_breakpoints_replaces(s: SessionView, path: Seq<char>, lines: Seq<u32>, other: Seq<char>)
    requires
        session_wf(s),
        s.next_bp_id + lines.len() <= u32::MAX,
        other != path,
    ensures
        flatten(set_file(s.files, path, new_file_breakpoints(path, lines, s.next_bp_id))).filter(in_file(path))
            == new_file_breakpoints(path, lines, s.next_bp_id),
        flatten(set_file(s.files, path, new_file_breakpoints(path, lines, s.next_bp_id))).filter(in_file(other))
            == flatten(s.files).filter(in_file(other)),
{
    let nb = new_file_breakpoints(path, lines, s.next_bp_id);
    let of = s.files;
    let nf = set_file(of, path, nb);
    assert(files_consistent(of));
    lemma_set_file_entries(of, path, nb, other);
    lemma_flatten_filter(nf, path);
    lemma_flatten_filter(nf, other);
    lemma_flatten_filter(of, other);
}

/// Breakpoints carry over from one break to the next: in the session opened
/// on the table an earlier session ended with, a plain `continue` hands back
/// exactly the breakpoints the earlier session ended with.
pub proof fn lemma_breakpoints_carry_over(
    earlier: SessionView,
    event: BreakEventView,
    r: BreakStep,
    after: SessionView,
)
    requires
        step_spec(DapRequest::Continue, opened(event, ended_table(earlier)), r, after),
    ensures
        r matches BreakStep::Finish(_, a) && a.action == DebugActionType::Continue && breakpoints_view(
            a.breakpoints@,
        ) == flatten(earlier.files),
{
}

} // verus!
