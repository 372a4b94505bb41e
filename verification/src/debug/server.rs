//! The decisions of the DAP server.
//!
//! The server talks DAP to a client over TCP and forwards requests to the
//! Hyperlight VM over a channel; the connection and the channel live outside
//! this crate. Here are its state (sequence numbers, session flags), the
//! message framing, the dispatch of commands, and how requests, VM answers
//! and VM events become DAP messages.

use vstd::prelude::*;

use crate::debug::errors::DapError;
use crate::debug::messages::{DapRequest, DapResponse, FrameSummary, Scope, SourceLocation, StackFrame, StopReason, Variable, VariableSummary};
use crate::debug::protocol::{
    no_capabilities, BreakpointInfo, Capabilities, ContinuedEventBody, DisconnectArguments,
    EvaluateArguments, EvaluateResponseBody, ExitedEventBody, OutputEventBody, ScopeInfo,
    ScopesArguments, ScopesResponseBody, SetBreakpointsArguments, SetBreakpointsResponseBody,
    SetFunctionBreakpointsArguments, Source, ContinueResponseBody, ThreadInfo, ThreadsResponseBody, StackFrameInfo, StackTraceArguments,
    StackTraceResponseBody, StoppedEventBody, VariableInfo, VariablesArguments,
    VariablesResponseBody,
};
use crate::shared::opt_view;
use vstd::string::StringSliceAdditionalSpecFns;
use crate::runtime::main::debugger::digits_value;
use crate::text::{
    all_ascii, ascii_lower, chars_of, dec_digits, lowercase, digit_char, owned, push_char, push_str, push_u64,
    seq_find, string_from_range, to_lowercase, trim, trim_bounds, find_first,
};

verus! {

broadcast use vstd::string::group_string_axioms;

/// The main thread ID: Hyperlight guests are single-threaded.
pub const MAIN_THREAD_ID: i64 = 1;

// ---------------------------------------------------------------------------
// Framing
// ---------------------------------------------------------------------------

/// Only ASCII decimal digits.
pub open spec fn all_digits(d: Seq<char>) -> bool {
    forall|i: int| 0 <= i < d.len() ==> '0' <= #[trigger] d[i] && d[i] <= '9'
}

/// `usize::from_str`: an optional `+`, then one or more decimal digits whose
/// value fits.
pub open spec fn parse_usize(s: Seq<char>) -> Option<usize> {
    let d = if s.len() > 0 && s[0] == '+' {
        s.skip(1)
    } else {
        s
    };
    if d.len() == 0 || !all_digits(d) {
        None
    } else if digits_value(d) <= usize::MAX {
        Some(digits_value(d) as usize)
    } else {
        None
    }
}

/// The value of a `Content-Length` header line, or the message of the parse
/// error.
pub open spec fn spec_parse_content_length(header: Seq<char>) -> Result<usize, Seq<char>> {
    let h = trim(header);
    if h.len() == 0 {
        Err("Empty header"@)
    } else {
        match seq_find(h, seq![':']) {
            None => Err("Invalid header format: "@ + h),
            Some(i) => {
                let name = h.take(i);
                let value = h.skip(i + 1);
                if lowercase(trim(name)) != "content-length"@ {
                    Err("Expected Content-Length header, got: "@ + name)
                } else {
                    match parse_usize(trim(value)) {
                        Some(n) => Ok(n),
                        None => Err("Invalid Content-Length value: "@ + value),
                    }
                }
            },
        }
    }
}

/// Parses `v[lo..hi]` as a `usize` (`usize::from_str`).
fn parse_usize_chars(v: &Vec<char>, lo: usize, hi: usize) -> (r: Option<usize>)
    requires
        lo <= hi <= v.len(),
    ensures
        r == parse_usize(v@.subrange(lo as int, hi as int)),
{
    let ghost s = v@.subrange(lo as int, hi as int);
    let start = if lo < hi && v[lo] == '+' {
        lo + 1
    } else {
        lo
    };
    let ghost d = v@.subrange(start as int, hi as int);
    assert(d =~= if s.len() > 0 && s[0] == '+' {
        s.skip(1)
    } else {
        s
    });
    if start == hi {
        return None;
    }
    let mut acc: usize = 0;
    let mut i = start;
    while i < hi
        invariant
            start <= i <= hi <= v.len(),
            start < hi,
            d == v@.subrange(start as int, hi as int),
            s == v@.subrange(lo as int, hi as int),
            d == (if s.len() > 0 && s[0] == '+' {
                s.skip(1)
            } else {
                s
            }),
            all_digits(v@.subrange(start as int, i as int)),
            acc == digits_value(v@.subrange(start as int, i as int)),
        decreases hi - i,
    {
        let c = v[i];
        if !('0' <= c && c <= '9') {
            assert(d[i - start] == c);
            return None;
        }
        let ghost done = v@.subrange(start as int, i as int);
        assert(v@.subrange(start as int, i + 1) =~= done.push(c));
        assert(done.push(c).drop_last() =~= done);
        let digit = (c as u32 - 48) as usize;
        match acc.checked_mul(10) {
            Some(m) => match m.checked_add(digit) {
                Some(n) => {
                    acc = n;
                },
                None => {
                    proof {
                        lemma_digits_value_grows(v@, start as int, i + 1, hi as int);
                    }
                    return None;
                },
            },
            None => {
                proof {
                    lemma_digits_value_grows(v@, start as int, i + 1, hi as int);
                }
                return None;
            },
        }
        i = i + 1;
    }
    Some(acc)
}

/// A longer digit string is worth at least as much as its prefix (when all
/// are digits).
proof fn lemma_digits_value_grows(v: Seq<char>, start: int, mid: int, end: int)
    requires
        0 <= start <= mid <= end <= v.len(),
    ensures
        all_digits(v.subrange(start, end)) ==> digits_value(v.subrange(start, mid)) <= digits_value(
            v.subrange(start, end),
        ),
    decreases end - mid,
{
    if mid < end && all_digits(v.subrange(start, end)) {
        lemma_digits_value_grows(v, start, mid, end - 1);
        assert(v.subrange(start, end).drop_last() =~= v.subrange(start, end - 1));
        assert(all_digits(v.subrange(start, end - 1)));
    }
}

/// The state machine of the DAP server: sequence numbers of outgoing
/// messages and the session flags.
pub struct DapServer {
    seq: i64,
    initialized: bool,
    running: bool,
    shutdown: bool,
}

impl DapServer {
    /// Parses the `Content-Length` header value.
    pub fn parse_content_length(header: &str) -> (r: Result<usize, DapError>)
        ensures
            match spec_parse_content_length(header@) {
                Ok(n) => r == Ok::<usize, DapError>(n),
                Err(m) => r matches Err(DapError::ParseError(msg)) && msg@ == m,
            },
    {
        let v = chars_of(header);
        let (a, b) = trim_bounds(&v, 0, v.len());
        let ghost h = v@.subrange(a as int, b as int);
        assert(v@.subrange(0, v@.len() as int) =~= v@);
        if a == b {
            return Err(DapError::parse(owned("Empty header")));
        }
        let trimmed = sub_range(&v, a, b);
        let colon = chars_of(":");
        proof {
            reveal_strlit(":");
            assert(colon@ =~= seq![':']);
        }
        let found = find_first(&trimmed, &colon);
        match found {
            None => {
                let mut m = owned("Invalid header format: ");
                let t = string_from_range(&trimmed, 0, trimmed.len());
                push_str(&mut m, t.as_str());
                assert(trimmed@.subrange(0, trimmed@.len() as int) =~= trimmed@);
                Err(DapError::parse(m))
            },
            Some(i) => {
                let (na, nb) = trim_bounds(&trimmed, 0, i);
                let name_trimmed = string_from_range(&trimmed, na, nb);
                let lower = to_lowercase(name_trimmed.as_str());
                assert(trimmed@.subrange(0, i as int) =~= h.take(i as int));
                if !crate::text::str_eq(lower.as_str(), "content-length") {
                    let mut m = owned("Expected Content-Length header, got: ");
                    let name = string_from_range(&trimmed, 0, i);
                    push_str(&mut m, name.as_str());
                    return Err(DapError::parse(m));
                }
                let (va, vb) = trim_bounds(&trimmed, i + 1, trimmed.len());
                assert(trimmed@.subrange(i + 1, trimmed@.len() as int) =~= h.skip(i + 1));
                match parse_usize_chars(&trimmed, va, vb) {
                    Some(n) => Ok(n),
                    None => {
                        let mut m = owned("Invalid Content-Length value: ");
                        let value = string_from_range(&trimmed, i + 1, trimmed.len());
                        push_str(&mut m, value.as_str());
                        Err(DapError::parse(m))
                    },
                }
            },
        }
    }
}

/// The characters `v[lo..hi]`.
fn sub_range(v: &Vec<char>, lo: usize, hi: usize) -> (r: Vec<char>)
    requires
        lo <= hi <= v.len(),
    ensures
        r@ == v@.subrange(lo as int, hi as int),
{
    crate::text::sub_vec(v, lo, hi)
}


/// The header line announcing a payload of `n` bytes.
pub open spec fn header_line(n: nat) -> Seq<char> {
    "Content-Length: "@ + dec_digits(n) + "\r\n"@
}

/// A JSON message framed for the wire: its header line, a blank line, then
/// the message; the length counts the message's UTF-8 bytes.
pub open spec fn framed(json: &str) -> Seq<char> {
    header_line(json.len() as nat) + "\r\n"@ + json@
}

/// Frames a JSON message with the DAP `Content-Length` header.
pub fn frame_message(json: &str) -> (r: String)
    ensures
        r@ == framed(json),
{
    let mut s = owned("Content-Length: ");
    let n = json.len();
    push_u64(&mut s, n as u64);
    push_str(&mut s, "\r\n\r\n");
    push_str(&mut s, json);
    proof {
        reveal_strlit("\r\n\r\n");
        reveal_strlit("\r\n");
    }
    assert(s@ =~= framed(json));
    s
}

proof fn lemma_dec_digits_digits(n: nat)
    ensures
        all_digits(dec_digits(n)),
        dec_digits(n).len() > 0,
        digits_value(dec_digits(n)) == n,
    decreases n,
{
    let s = dec_digits(n);
    if n < 10 {
        assert(((n + 48) as char) as int == n + 48);
        assert(s.drop_last() =~= Seq::<char>::empty());
        assert(digits_value(s) == digits_value(s.drop_last()) * 10 + ((s.last() as int) - 48) as nat);
    } else {
        assert(((n % 10 + 48) as char) as int == n % 10 + 48);
        assert((n / 10) * 10 + n % 10 == n);
        lemma_dec_digits_digits(n / 10);
        assert(s.drop_last() =~= dec_digits(n / 10));
        assert(s.last() == digit_char(n % 10));
        assert(digits_value(s) == digits_value(s.drop_last()) * 10 + ((s.last() as int) - 48) as nat);
        let d = dec_digits(n / 10);
        assert(dec_digits(n).drop_last() =~= d);
        assert forall|i: int| 0 <= i < dec_digits(n).len() implies '0' <= #[trigger] dec_digits(n)[i]
            && dec_digits(n)[i] <= '9' by {
            if i < d.len() {
                assert(dec_digits(n)[i] == d[i]);
            }
        }
    }
}

proof fn lemma_find_first_char(h: Seq<char>, c: char, i: int)
    requires
        0 <= i < h.len(),
        h[i] == c,
        forall|k: int| 0 <= k < i ==> h[k] != c,
    ensures
        seq_find(h, seq![c]) == Some(i),
{
    lemma_find_from_char(h, c, i, 0);
}

proof fn lemma_find_from_char(h: Seq<char>, c: char, i: int, from: int)
    requires
        0 <= from <= i < h.len(),
        h[i] == c,
        forall|k: int| 0 <= k < i ==> h[k] != c,
    ensures
        crate::text::find_from(h, seq![c], from) == Some(i),
    decreases i - from,
{
    if from == i {
        assert(h.subrange(from, from + 1) =~= seq![c]);
    } else {
        assert(h.subrange(from, from + 1)[0] == h[from]);
        lemma_find_from_char(h, c, i, from + 1);
    }
}

proof fn lemma_trim_header(n: nat)
    ensures
        trim(header_line(n)) == "Content-Length: "@ + dec_digits(n),
{
    reveal_strlit("Content-Length: ");
    reveal_strlit("\r\n");
    let d = dec_digits(n);
    lemma_dec_digits_digits(n);
    let header = header_line(n);
    let h = "Content-Length: "@ + d;
    assert(header[0] == 'C');
    assert(crate::text::trim_start(header) == header);
    assert(header.drop_last() =~= h.push('\r'));
    assert(header.drop_last().drop_last() =~= h);
    assert(d[d.len() - 1] == h.last());
    assert('0' <= d[d.len() - 1]);
    assert(crate::text::trim_end(h) == h);
    assert(header.last() == '\n');
    assert(header.drop_last().last() == '\r');
    assert(crate::text::trim_end(header) == crate::text::trim_end(header.drop_last()));
    assert(crate::text::trim_end(header.drop_last()) == crate::text::trim_end(h));
}

proof fn lemma_header_name(d: Seq<char>)
    ensures
        seq_find("Content-Length: "@ + d, seq![':']) == Some(14int),
        ("Content-Length: "@ + d).take(14) == "Content-Length"@,
        lowercase(trim("Content-Length"@)) == "content-length"@,
{
    reveal_strlit("Content-Length: ");
    reveal_strlit("Content-Length");
    reveal_strlit("content-length");
    let h = "Content-Length: "@ + d;
    let name = "Content-Length"@;
    assert forall|k: int| 0 <= k < 14 implies h[k] != ':' by {
        assert(h[k] == name[k]);
    }
    assert(h[14] == ':');
    lemma_find_first_char(h, ':', 14);
    assert(h.take(14) =~= name);
    assert(crate::text::trim_start(name) == name);
    assert(crate::text::trim_end(name) == name);
    assert(all_ascii(name));
    assert(name.map_values(|c: char| ascii_lower(c)) =~= "content-length"@);
}

proof fn lemma_header_value(d: Seq<char>)
    requires
        all_digits(d),
        d.len() > 0,
    ensures
        trim(("Content-Length: "@ + d).skip(15)) == d,
{
    reveal_strlit("Content-Length: ");
    let value = ("Content-Length: "@ + d).skip(15);
    assert(value =~= seq![' '] + d);
    assert(value.skip(1) =~= d);
    assert('0' <= d[0]);
    assert('0' <= d[d.len() - 1]);
    assert(crate::text::trim_start(d) == d);
    assert(crate::text::trim_start(value) == d);
    assert(crate::text::trim_end(d) == d);
}

/// The header line written for a payload of `n` bytes reads back as `n`:
/// a read gives back what framing wrote.
pub proof fn lemma_content_length_round_trip(n: usize)
    ensures
        spec_parse_content_length(header_line(n as nat)) == Ok::<usize, Seq<char>>(n),
{
    let d = dec_digits(n as nat);
    lemma_dec_digits_digits(n as nat);
    lemma_trim_header(n as nat);
    lemma_header_name(d);
    lemma_header_value(d);
    reveal_strlit("Content-Length: ");
    assert(("Content-Length: "@ + d).len() > 0);
    assert(d[0] != '+');
}


// ---------------------------------------------------------------------------
// Session state
// ---------------------------------------------------------------------------

/// Mathematical model of a [`DapServer`].
pub struct ServerView {
    /// Sequence number of the next outgoing message.
    pub seq: i64,
    /// Whether the session has been initialized.
    pub initialized: bool,
    /// Whether the guest is running (not stopped).
    pub running: bool,
    /// Whether the server is shutting down.
    pub shutdown: bool,
}

impl View for DapServer {
    type V = ServerView;

    closed spec fn view(&self) -> ServerView {
        ServerView {
            seq: self.seq,
            initialized: self.initialized,
            running: self.running,
            shutdown: self.shutdown,
        }
    }
}

/// `seq + 1`, wrapping around at the end of the `i64` range.
pub open spec fn successor(seq: i64) -> i64 {
    if seq == i64::MAX {
        i64::MIN
    } else {
        (seq + 1) as i64
    }
}

impl DapServer {
    /// A new session: numbering starts at 1, nothing initialized, the guest
    /// not running, no shutdown.
    pub fn new() -> (r: Self)
        ensures
            r@ == (ServerView { seq: 1, initialized: false, running: false, shutdown: false }),
    {
        DapServer { seq: 1, initialized: false, running: false, shutdown: false }
    }

    /// Returns the next sequence number.
    pub fn next_seq(&mut self) -> (r: i64)
        ensures
            r == old(self)@.seq,
            final(self)@ == (ServerView { seq: successor(old(self)@.seq), ..old(self)@ }),
    {
        let r = self.seq;
        self.seq = if r == i64::MAX {
            i64::MIN
        } else {
            r + 1
        };
        r
    }

    /// Whether the session has been initialized.
    pub fn is_initialized(&self) -> (r: bool)
        ensures
            r == self@.initialized,
    {
        self.initialized
    }

    /// Whether the guest is running.
    pub fn is_running(&self) -> (r: bool)
        ensures
            r == self@.running,
    {
        self.running
    }

    /// Whether the server is shutting down.
    pub fn is_shutdown(&self) -> (r: bool)
        ensures
            r == self@.shutdown,
    {
        self.shutdown
    }

    /// Records that the server is to stop (after `disconnect`, or when the
    /// VM channel is gone).
    pub fn shut_down(&mut self)
        ensures
            final(self)@ == (ServerView { shutdown: true, ..old(self)@ }),
    {
        self.shutdown = true;
    }
}

/// The capabilities the server announces: configuration done, function
/// breakpoints, evaluate for hovers and terminate debuggee; nothing else.
pub open spec fn server_capabilities() -> Capabilities {
    Capabilities {
        supports_configuration_done_request: true,
        supports_function_breakpoints: true,
        supports_evaluate_for_hovers: true,
        support_terminate_debuggee: true,
        ..no_capabilities()
    }
}

/// The capabilities announced in the `initialize` response.
pub fn capabilities() -> (r: Capabilities)
    ensures
        r == server_capabilities(),
{
    let mut c = Capabilities::default();
    c.supports_configuration_done_request = true;
    c.supports_function_breakpoints = true;
    c.supports_conditional_breakpoints = false;
    c.supports_evaluate_for_hovers = true;
    c.supports_set_variable = false;
    c.supports_step_back = false;
    c.support_terminate_debuggee = true;
    c.supports_delayed_stack_trace_loading = false;
    c.supports_log_points = false;
    c
}

// ---------------------------------------------------------------------------
// Dispatch
// ---------------------------------------------------------------------------

/// The commands the server handles.
#[derive(Debug, Clone, Copy, PartialEq, Eq, Structural)]
pub enum DapCommand {
    Initialize,
    Launch,
    Attach,
    ConfigurationDone,
    SetBreakpoints,
    SetFunctionBreakpoints,
    Threads,
    StackTrace,
    Scopes,
    Variables,
    Continue,
    Next,
    StepIn,
    StepOut,
    Pause,
    Evaluate,
    Disconnect,
    /// Anything else: answered with an "Unknown command" error.
    Unknown,
}

/// The command a request names.
pub open spec fn spec_classify(c: Seq<char>) -> DapCommand {
    if c == "initialize"@ {
        DapCommand::Initialize
    } else if c == "launch"@ {
        DapCommand::Launch
    } else if c == "attach"@ {
        DapCommand::Attach
    } else if c == "configurationDone"@ {
        DapCommand::ConfigurationDone
    } else if c == "setBreakpoints"@ {
        DapCommand::SetBreakpoints
    } else if c == "setFunctionBreakpoints"@ {
        DapCommand::SetFunctionBreakpoints
    } else if c == "threads"@ {
        DapCommand::Threads
    } else if c == "stackTrace"@ {
        DapCommand::StackTrace
    } else if c == "scopes"@ {
        DapCommand::Scopes
    } else if c == "variables"@ {
        DapCommand::Variables
    } else if c == "continue"@ {
        DapCommand::Continue
    } else if c == "next"@ {
        DapCommand::Next
    } else if c == "stepIn"@ {
        DapCommand::StepIn
    } else if c == "stepOut"@ {
        DapCommand::StepOut
    } else if c == "pause"@ {
        DapCommand::Pause
    } else if c == "evaluate"@ {
        DapCommand::Evaluate
    } else if c == "disconnect"@ {
        DapCommand::Disconnect
    } else {
        DapCommand::Unknown
    }
}

/// Classifies a request's command.
pub fn classify_command(command: &str) -> (r: DapCommand)
    ensures
        r == spec_classify(command@),
{
    if crate::text::str_eq(command, "initialize") {
        DapCommand::Initialize
    } else if crate::text::str_eq(command, "launch") {
        DapCommand::Launch
    } else if crate::text::str_eq(command, "attach") {
        DapCommand::Attach
    } else if crate::text::str_eq(command, "configurationDone") {
        DapCommand::ConfigurationDone
    } else if crate::text::str_eq(command, "setBreakpoints") {
        DapCommand::SetBreakpoints
    } else if crate::text::str_eq(command, "setFunctionBreakpoints") {
        DapCommand::SetFunctionBreakpoints
    } else if crate::text::str_eq(command, "threads") {
        DapCommand::Threads
    } else if crate::text::str_eq(command, "stackTrace") {
        DapCommand::StackTrace
    } else if crate::text::str_eq(command, "scopes") {
        DapCommand::Scopes
    } else if crate::text::str_eq(command, "variables") {
        DapCommand::Variables
    } else if crate::text::str_eq(command, "continue") {
        DapCommand::Continue
    } else if crate::text::str_eq(command, "next") {
        DapCommand::Next
    } else if crate::text::str_eq(command, "stepIn") {
        DapCommand::StepIn
    } else if crate::text::str_eq(command, "stepOut") {
        DapCommand::StepOut
    } else if crate::text::str_eq(command, "pause") {
        DapCommand::Pause
    } else if crate::text::str_eq(command, "evaluate") {
        DapCommand::Evaluate
    } else if crate::text::str_eq(command, "disconnect") {
        DapCommand::Disconnect
    } else {
        DapCommand::Unknown
    }
}

/// The message answered to a second `initialize`.
pub open spec fn already_initialized() -> Seq<char> {
    "Already initialized"@
}

impl DapServer {
    /// Whether `initialize` may proceed: refused, with its message, once the
    /// session is initialized.
    pub fn check_initialize(&self) -> (r: Result<(), String>)
        ensures
            self@.initialized ==> (r matches Err(m) && m@ == already_initialized()),
            !self@.initialized ==> r is Ok,
    {
        if self.initialized {
            Err(owned("Already initialized"))
        } else {
            Ok(())
        }
    }
}

/// The request a command without arguments forwards to the VM.
pub open spec fn spec_forwarded_request(command: DapCommand) -> Option<DapRequest> {
    match command {
        DapCommand::Initialize => Some(DapRequest::Initialize),
        DapCommand::ConfigurationDone => Some(DapRequest::ConfigurationDone),
        DapCommand::Continue => Some(DapRequest::Continue),
        DapCommand::Next => Some(DapRequest::Next),
        DapCommand::StepIn => Some(DapRequest::StepIn),
        DapCommand::StepOut => Some(DapRequest::StepOut),
        DapCommand::Pause => Some(DapRequest::Pause),
        _ => None,
    }
}

/// The request forwarded to the VM for `initialize`, `configurationDone`,
/// `continue`, `next`, `stepIn`, `stepOut` and `pause`; the other commands
/// carry arguments or are answered by the server alone.
pub fn forwarded_request(command: DapCommand) -> (r: Option<DapRequest>)
    ensures
        r == spec_forwarded_request(command),
{
    match command {
        DapCommand::Initialize => Some(DapRequest::Initialize),
        DapCommand::ConfigurationDone => Some(DapRequest::ConfigurationDone),
        DapCommand::Continue => Some(DapRequest::Continue),
        DapCommand::Next => Some(DapRequest::Next),
        DapCommand::StepIn => Some(DapRequest::StepIn),
        DapCommand::StepOut => Some(DapRequest::StepOut),
        DapCommand::Pause => Some(DapRequest::Pause),
        _ => None,
    }
}

/// The session once the VM has taken a command's request: `initialize`
/// initializes; `configurationDone` and the resume commands set the guest
/// running; `disconnect` shuts the server down (whether or not the VM took
/// it); nothing else changes.
pub open spec fn after_forwarded(s: ServerView, command: DapCommand) -> ServerView {
    match command {
        DapCommand::Initialize => ServerView { initialized: true, ..s },
        DapCommand::ConfigurationDone | DapCommand::Continue | DapCommand::Next | DapCommand::StepIn
        | DapCommand::StepOut => ServerView { running: true, ..s },
        DapCommand::Disconnect => ServerView { shutdown: true, ..s },
        _ => s,
    }
}

impl DapServer {
    /// Records that a command's request went to the VM.
    pub fn record_forwarded(&mut self, command: DapCommand)
        ensures
            final(self)@ == after_forwarded(old(self)@, command),
    {
        match command {
            DapCommand::Initialize => {
                self.initialized = true;
            },
            DapCommand::ConfigurationDone | DapCommand::Continue | DapCommand::Next
            | DapCommand::StepIn | DapCommand::StepOut => {
                self.running = true;
            },
            DapCommand::Disconnect => {
                self.shutdown = true;
            },
            _ => {},
        }
    }
}

/// The body of the `threads` response: the single main thread, named
/// `main` (Hyperlight guests are single-threaded).
pub fn threads_body() -> (r: ThreadsResponseBody)
    ensures
        r.threads@.len() == 1,
        r.threads@[0].id == MAIN_THREAD_ID,
        r.threads@[0].name@ == "main"@,
{
    let mut threads: Vec<ThreadInfo> = Vec::new();
    threads.push(ThreadInfo { id: MAIN_THREAD_ID, name: owned("main") });
    ThreadsResponseBody { threads }
}

/// The body of the `continue` response: every thread continues.
pub fn continue_body() -> (r: ContinueResponseBody)
    ensures
        r.all_threads_continued,
{
    ContinueResponseBody { all_threads_continued: true }
}

// ---------------------------------------------------------------------------
// Requests forwarded to the VM, and the bodies answered
// ---------------------------------------------------------------------------

/// The path a breakpoint request names: the source's path, else its name,
/// else empty.
pub open spec fn source_path_of(src: Source) -> Seq<char> {
    match src.path {
        Some(p) => p@,
        None => match src.name {
            Some(n) => n@,
            None => Seq::empty(),
        },
    }
}

/// A source given by its path alone.
pub open spec fn is_path_source(src: Option<Source>, path: Seq<char>) -> bool {
    src matches Some(s) && opt_view(s.path) == Some(path) && s.name is None && s.source_reference is None
}

/// The report for the `i`-th requested breakpoint at `line` of `path`:
/// verified, numbered from 1.
pub open spec fn line_breakpoint_info(b: BreakpointInfo, i: int, path: Seq<char>, line: u32) -> bool {
    &&& b.id == Some((i + 1) as i64)
    &&& b.verified
    &&& b.message is None
    &&& is_path_source(b.source, path)
    &&& b.line == Some(line as i64)
    &&& b.column is None
}

fn path_source(path: &String) -> (r: Option<Source>)
    ensures
        is_path_source(r, path@),
{
    let mut src = Source::default();
    src.path = Some(path.clone());
    Some(src)
}

fn clone_opt(s: &Option<String>) -> (r: Option<String>)
    ensures
        opt_view(r) == opt_view(*s),
{
    crate::shared::clone_opt_string(s)
}

/// `setBreakpoints`: the request for the VM (one line per breakpoint, on the
/// source's path) and the response body, which reports every breakpoint as
/// verified.
pub fn set_breakpoints_plan(args: &SetBreakpointsArguments) -> (r: (DapRequest, SetBreakpointsResponseBody))
    requires
        args.breakpoints.len() < i64::MAX,
    ensures
        r.0 matches DapRequest::SetBreakpoints { source_path, lines } && source_path@ == source_path_of(
            args.source,
        ) && lines@ == args.breakpoints@.map_values(|b: crate::debug::protocol::SourceBreakpoint| b.line as u32),
        r.1.breakpoints@.len() == args.breakpoints@.len(),
        forall|i: int|
            0 <= i < args.breakpoints@.len() ==> line_breakpoint_info(
                #[trigger] r.1.breakpoints@[i],
                i,
                source_path_of(args.source),
                args.breakpoints@[i].line as u32,
            ),
{
    let source_path = match &args.source.path {
        Some(p) => p.clone(),
        None => match &args.source.name {
            Some(n) => n.clone(),
            None => String::new(),
        },
    };
    let mut lines: Vec<u32> = Vec::new();
    let mut infos: Vec<BreakpointInfo> = Vec::new();
    let mut i: usize = 0;
    while i < args.breakpoints.len()
        invariant
            i <= args.breakpoints.len() < i64::MAX,
            source_path@ == source_path_of(args.source),
            lines@ == args.breakpoints@.map_values(|b: crate::debug::protocol::SourceBreakpoint| b.line as u32).take(
                i as int,
            ),
            infos@.len() == i,
            forall|k: int|
                0 <= k < i ==> line_breakpoint_info(
                    #[trigger] infos@[k],
                    k,
                    source_path@,
                    args.breakpoints@[k].line as u32,
                ),
        decreases args.breakpoints.len() - i,
    {
        let line = args.breakpoints[i].line as u32;
        lines.push(line);
        infos.push(BreakpointInfo {
            id: Some(i as i64 + 1),
            verified: true,
            message: None,
            source: path_source(&source_path),
            line: Some(line as i64),
            column: None,
        });
        assert(lines@ =~= args.breakpoints@.map_values(|b: crate::debug::protocol::SourceBreakpoint| b.line as u32).take(
            i + 1,
        ));
        i = i + 1;
    }
    assert(args.breakpoints@.map_values(|b: crate::debug::protocol::SourceBreakpoint| b.line as u32).take(
        args.breakpoints.len() as int,
    ) =~= args.breakpoints@.map_values(|b: crate::debug::protocol::SourceBreakpoint| b.line as u32));
    (DapRequest::SetBreakpoints { source_path, lines }, SetBreakpointsResponseBody { breakpoints: infos })
}

/// The report for the `i`-th requested function breakpoint: verified,
/// numbered from 1000, without location.
pub open spec fn function_breakpoint_info(b: BreakpointInfo, i: int) -> bool {
    &&& b.id == Some((i + 1000) as i64)
    &&& b.verified
    &&& b.message is None
    &&& b.source is None
    &&& b.line is None
    &&& b.column is None
}

/// `setFunctionBreakpoints`: the request for the VM (the function names)
/// and the response body, which reports every breakpoint as verified.
pub fn set_function_breakpoints_plan(args: &SetFunctionBreakpointsArguments) -> (r: (DapRequest, SetBreakpointsResponseBody))
    requires
        args.breakpoints.len() < i64::MAX - 1000,
    ensures
        r.0 matches DapRequest::SetFunctionBreakpoints { names } && names@.map_values(|n: String| n@)
            == args.breakpoints@.map_values(|b: crate::debug::protocol::FunctionBreakpoint| b.name@),
        r.1.breakpoints@.len() == args.breakpoints@.len(),
        forall|i: int|
            0 <= i < args.breakpoints@.len() ==> function_breakpoint_info(#[trigger] r.1.breakpoints@[i], i),
{
    let mut names: Vec<String> = Vec::new();
    let mut infos: Vec<BreakpointInfo> = Vec::new();
    let mut i: usize = 0;
    while i < args.breakpoints.len()
        invariant
            i <= args.breakpoints.len() < i64::MAX - 1000,
            names@.map_values(|n: String| n@) == args.breakpoints@.map_values(
                |b: crate::debug::protocol::FunctionBreakpoint| b.name@,
            ).take(i as int),
            infos@.len() == i,
            forall|k: int| 0 <= k < i ==> function_breakpoint_info(#[trigger] infos@[k], k),
        decreases args.breakpoints.len() - i,
    {
        let ghost before = names@;
        let nm = args.breakpoints[i].name.clone();
        names.push(nm);
        assert(names@.map_values(|n: String| n@) =~= before.map_values(|n: String| n@).push(nm@));
        assert(names@.map_values(|n: String| n@) =~= args.breakpoints@.map_values(
            |b: crate::debug::protocol::FunctionBreakpoint| b.name@,
        ).take(i + 1));
        infos.push(BreakpointInfo {
            id: Some(i as i64 + 1000),
            verified: true,
            message: None,
            source: None,
            line: None,
            column: None,
        });
        i = i + 1;
    }
    assert(args.breakpoints@.map_values(|b: crate::debug::protocol::FunctionBreakpoint| b.name@).take(
        args.breakpoints.len() as int,
    ) =~= args.breakpoints@.map_values(|b: crate::debug::protocol::FunctionBreakpoint| b.name@));
    (DapRequest::SetFunctionBreakpoints { names }, SetBreakpointsResponseBody { breakpoints: infos })
}

/// An optional number narrowed to `u32`.
pub open spec fn narrow(o: Option<i64>) -> Option<u32> {
    match o {
        Some(v) => Some(v as u32),
        None => None,
    }
}

fn narrow_exec(o: Option<i64>) -> (r: Option<u32>)
    ensures
        r == narrow(o),
{
    match o {
        Some(v) => Some(v as u32),
        None => None,
    }
}

/// `stackTrace`: the request for the VM.
pub fn stack_trace_request(args: &StackTraceArguments) -> (r: DapRequest)
    ensures
        r == (DapRequest::StackTrace { start_frame: narrow(args.start_frame), levels: narrow(args.levels) }),
{
    DapRequest::StackTrace { start_frame: narrow_exec(args.start_frame), levels: narrow_exec(args.levels) }
}

/// The DAP frame for a VM frame: its source given by path, a missing column
/// reported as 1.
pub open spec fn frame_info_matches(info: StackFrameInfo, f: FrameSummary) -> bool {
    &&& info.id == f.id as i64
    &&& info.name@ == f.name
    &&& is_path_source(info.source, f.location.filename)
    &&& info.line == f.location.line as i64
    &&& info.column == (match f.location.column {
        Some(c) => c,
        None => 1u32,
    }) as i64
}

/// The error message answered when the VM replies with something else.
pub open spec fn unexpected_reply() -> Seq<char> {
    "Unexpected response from VM"@
}

/// `stackTrace`: the response body from the VM's answer, or the error
/// message: the VM's own for an error, otherwise "Unexpected response from
/// VM".
pub fn stack_trace_body(reply: Result<DapResponse, DapError>) -> (r: Result<StackTraceResponseBody, String>)
    ensures
        match reply {
            Ok(DapResponse::StackTrace { frames, total_frames }) => r matches Ok(b) && b.total_frames == Some(
                total_frames as i64,
            ) && b.stack_frames@.len() == frames@.len() && forall|i: int|
                0 <= i < frames@.len() ==> frame_info_matches(#[trigger] b.stack_frames@[i], frames@[i]@),
            Ok(DapResponse::Error { message }) => r matches Err(m) && m@ == message@,
            _ => r matches Err(m) && m@ == unexpected_reply(),
        },
{
    match reply {
        Ok(DapResponse::StackTrace { frames, total_frames }) => {
            let mut infos: Vec<StackFrameInfo> = Vec::new();
            let mut i: usize = 0;
            while i < frames.len()
                invariant
                    i <= frames.len(),
                    infos@.len() == i,
                    forall|k: int| 0 <= k < i ==> frame_info_matches(#[trigger] infos@[k], frames@[k]@),
                decreases frames.len() - i,
            {
                let f = &frames[i];
                let column = match f.location.column {
                    Some(c) => c,
                    None => 1,
                };
                infos.push(StackFrameInfo {
                    id: f.id as i64,
                    name: f.name.clone(),
                    source: path_source(&f.location.filename),
                    line: f.location.line as i64,
                    column: column as i64,
                });
                i = i + 1;
            }
            Ok(StackTraceResponseBody { stack_frames: infos, total_frames: Some(total_frames as i64) })
        },
        Ok(DapResponse::Error { message }) => Err(message),
        _ => Err(owned("Unexpected response from VM")),
    }
}

/// `scopes`: the request for the VM.
pub fn scopes_request(args: &ScopesArguments) -> (r: DapRequest)
    ensures
        r == (DapRequest::Scopes { frame_id: args.frame_id as u32 }),
{
    DapRequest::Scopes { frame_id: args.frame_id as u32 }
}

/// `scopes`: the response body from the VM's answer, or the error message.
pub fn scopes_body(reply: Result<DapResponse, DapError>) -> (r: Result<ScopesResponseBody, String>)
    ensures
        match reply {
            Ok(DapResponse::Scopes { scopes }) => r matches Ok(b) && b.scopes@.len() == scopes@.len()
                && forall|i: int|
                0 <= i < scopes@.len() ==> (#[trigger] b.scopes@[i]).name@ == scopes@[i].name@
                    && b.scopes@[i].variables_reference == scopes@[i].variables_reference as i64
                    && b.scopes@[i].expensive == scopes@[i].expensive,
            Ok(DapResponse::Error { message }) => r matches Err(m) && m@ == message@,
            _ => r matches Err(m) && m@ == unexpected_reply(),
        },
{
    match reply {
        Ok(DapResponse::Scopes { scopes }) => {
            let mut infos: Vec<ScopeInfo> = Vec::new();
            let mut i: usize = 0;
            while i < scopes.len()
                invariant
                    i <= scopes.len(),
                    infos@.len() == i,
                    forall|k: int|
                        0 <= k < i ==> (#[trigger] infos@[k]).name@ == scopes@[k].name@
                            && infos@[k].variables_reference == scopes@[k].variables_reference as i64
                            && infos@[k].expensive == scopes@[k].expensive,
                decreases scopes.len() - i,
            {
                let s = &scopes[i];
                infos.push(ScopeInfo {
                    name: s.name.clone(),
                    variables_reference: s.variables_reference as i64,
                    expensive: s.expensive,
                });
                i = i + 1;
            }
            Ok(ScopesResponseBody { scopes: infos })
        },
        Ok(DapResponse::Error { message }) => Err(message),
        _ => Err(owned("Unexpected response from VM")),
    }
}

/// `variables`: the request for the VM.
pub fn variables_request(args: &VariablesArguments) -> (r: DapRequest)
    ensures
        r == (DapRequest::Variables { variables_reference: args.variables_reference as u32 }),
{
    DapRequest::Variables { variables_reference: args.variables_reference as u32 }
}

/// The DAP variable for a VM variable.
pub open spec fn variable_info_matches(info: VariableInfo, v: VariableSummary) -> bool {
    &&& info.name@ == v.name
    &&& info.value@ == v.value
    &&& opt_view(info.value_type) == v.value_type
    &&& info.variables_reference == v.variables_reference as i64
}

/// `variables`: the response body from the VM's answer, or the error
/// message.
pub fn variables_body(reply: Result<DapResponse, DapError>) -> (r: Result<VariablesResponseBody, String>)
    ensures
        match reply {
            Ok(DapResponse::Variables { variables }) => r matches Ok(b) && b.variables@.len()
                == variables@.len() && forall|i: int|
                0 <= i < variables@.len() ==> variable_info_matches(#[trigger] b.variables@[i], variables@[i]@),
            Ok(DapResponse::Error { message }) => r matches Err(m) && m@ == message@,
            _ => r matches Err(m) && m@ == unexpected_reply(),
        },
{
    match reply {
        Ok(DapResponse::Variables { variables }) => {
            let mut infos: Vec<VariableInfo> = Vec::new();
            let mut i: usize = 0;
            while i < variables.len()
                invariant
                    i <= variables.len(),
                    infos@.len() == i,
                    forall|k: int| 0 <= k < i ==> variable_info_matches(#[trigger] infos@[k], variables@[k]@),
                decreases variables.len() - i,
            {
                let v = &variables[i];
                infos.push(VariableInfo {
                    name: v.name.clone(),
                    value: v.value.clone(),
                    value_type: clone_opt(&v.value_type),
                    variables_reference: v.variables_reference as i64,
                });
                i = i + 1;
            }
            Ok(VariablesResponseBody { variables: infos })
        },
        Ok(DapResponse::Error { message }) => Err(message),
        _ => Err(owned("Unexpected response from VM")),
    }
}

/// `evaluate`: the request for the VM.
pub fn evaluate_request(args: EvaluateArguments) -> (r: DapRequest)
    ensures
        r matches DapRequest::Evaluate { expression, frame_id, context } && expression@
            == args.expression@ && frame_id == narrow(args.frame_id) && opt_view(context) == opt_view(
            args.context,
        ),
{
    DapRequest::Evaluate {
        expression: args.expression,
        frame_id: narrow_exec(args.frame_id),
        context: args.context,
    }
}

/// `evaluate`: the response body from the VM's answer, or the error
/// message.
pub fn evaluate_body(reply: Result<DapResponse, DapError>) -> (r: Result<EvaluateResponseBody, String>)
    ensures
        match reply {
            Ok(DapResponse::Evaluate { result, value_type, variables_reference }) => r matches Ok(b)
                && b.result@ == result@ && opt_view(b.value_type) == opt_view(value_type)
                && b.variables_reference == variables_reference as i64,
            Ok(DapResponse::Error { message }) => r matches Err(m) && m@ == message@,
            _ => r matches Err(m) && m@ == unexpected_reply(),
        },
{
    match reply {
        Ok(DapResponse::Evaluate { result, value_type, variables_reference }) => Ok(
            EvaluateResponseBody { result, value_type, variables_reference: variables_reference as i64 },
        ),
        Ok(DapResponse::Error { message }) => Err(message),
        _ => Err(owned("Unexpected response from VM")),
    }
}

/// `disconnect`: the request for the VM.
pub fn disconnect_request(args: &DisconnectArguments) -> (r: DapRequest)
    ensures
        r == (DapRequest::Disconnect { terminate: args.terminate_debuggee }),
{
    DapRequest::Disconnect { terminate: args.terminate_debuggee }
}


// ---------------------------------------------------------------------------
// Events from the VM
// ---------------------------------------------------------------------------

/// An event forwarded to the client for something the VM reported.
#[derive(Debug, Clone)]
pub enum VmEvent {
    /// The guest stopped.
    Stopped(StoppedEventBody),
    /// The guest continued.
    Continued(ContinuedEventBody),
    /// The guest produced output.
    Output(OutputEventBody),
    /// The debuggee terminated (its body is the empty object).
    Terminated,
    /// The debuggee exited.
    Exited(ExitedEventBody),
}

/// The DAP name of an event.
pub open spec fn event_name(e: VmEvent) -> Seq<char> {
    match e {
        VmEvent::Stopped(_) => "stopped"@,
        VmEvent::Continued(_) => "continued"@,
        VmEvent::Output(_) => "output"@,
        VmEvent::Terminated => "terminated"@,
        VmEvent::Exited(_) => "exited"@,
    }
}

impl VmEvent {
    /// The DAP name of this event.
    pub fn name(&self) -> (r: &'static str)
        ensures
            r@ == event_name(*self),
    {
        match self {
            VmEvent::Stopped(_) => "stopped",
            VmEvent::Continued(_) => "continued",
            VmEvent::Output(_) => "output",
            VmEvent::Terminated => "terminated",
            VmEvent::Exited(_) => "exited",
        }
    }
}

/// `Paused at <file>:<line>`.
pub open spec fn paused_at(filename: Seq<char>, line: u32) -> Seq<char> {
    "Paused at "@ + filename + ":"@ + dec_digits(line as nat)
}

/// The hit breakpoint ids widened to `i64`.
pub open spec fn widen_ids(ids: Option<Vec<u32>>) -> Option<Seq<i64>> {
    match ids {
        Some(v) => Some(v@.map_values(|x: u32| x as i64)),
        None => None,
    }
}

/// The `stopped` event body for a stop.
pub open spec fn stopped_body(
    b: StoppedEventBody,
    reason: StopReason,
    location: SourceLocation,
    ids: Option<Vec<u32>>,
    text: Option<String>,
) -> bool {
    &&& b.reason@ == crate::debug::messages::stop_reason_text(reason)
    &&& b.description matches Some(d) && d@ == paused_at(location.filename@, location.line)
    &&& b.thread_id == Some(MAIN_THREAD_ID)
    &&& b.all_threads_stopped
    &&& match b.hit_breakpoint_ids {
        Some(v) => widen_ids(ids) == Some(v@),
        None => ids is None,
    }
    &&& opt_view(b.text) == opt_view(text)
}

/// The `output` event body for an output.
pub open spec fn output_body(b: OutputEventBody, category: String, output: String, location: Option<SourceLocation>) -> bool {
    &&& opt_view(b.category) == Some(category@)
    &&& b.output@ == output@
    &&& match location {
        Some(loc) => is_path_source(b.source, loc.filename@) && b.line == Some(loc.line as i64) && b.column
            == match loc.column {
            Some(c) => Some(c as i64),
            None => None,
        },
        None => b.source is None && b.line is None && b.column is None,
    }
}

/// What becomes of a VM report: stops, continues, output, termination and
/// exit are forwarded as events (a stop marks the guest stopped, a continue
/// running); anything else is dropped.
pub open spec fn event_spec(response: DapResponse, old: ServerView, r: Option<VmEvent>, new: ServerView) -> bool {
    match response {
        DapResponse::Stopped { reason, location, hit_breakpoint_ids, exception_text } => {
            &&& new == (ServerView { running: false, ..old })
            &&& r matches Some(VmEvent::Stopped(b)) && stopped_body(
                b,
                reason,
                location,
                hit_breakpoint_ids,
                exception_text,
            )
        },
        DapResponse::Continued => {
            &&& new == (ServerView { running: true, ..old })
            &&& r matches Some(VmEvent::Continued(b)) && b.thread_id == MAIN_THREAD_ID
                && b.all_threads_continued
        },
        DapResponse::Output { category, output, location } => {
            &&& new == old
            &&& r matches Some(VmEvent::Output(b)) && output_body(b, category, output, location)
        },
        DapResponse::Terminated => new == old && r matches Some(VmEvent::Terminated),
        DapResponse::Exited { exit_code } => {
            &&& new == old
            &&& r matches Some(VmEvent::Exited(b)) && b.exit_code == exit_code as i64
        },
        _ => new == old && r is None,
    }
}

fn widen(ids: &Vec<u32>) -> (r: Vec<i64>)
    ensures
        r@ == ids@.map_values(|x: u32| x as i64),
{
    let mut out: Vec<i64> = Vec::new();
    let mut i: usize = 0;
    while i < ids.len()
        invariant
            i <= ids.len(),
            out@ == ids@.map_values(|x: u32| x as i64).take(i as int),
        decreases ids.len() - i,
    {
        out.push(ids[i] as i64);
        assert(out@ =~= ids@.map_values(|x: u32| x as i64).take(i + 1));
        i = i + 1;
    }
    assert(ids@.map_values(|x: u32| x as i64).take(ids.len() as int) =~= ids@.map_values(|x: u32| x as i64));
    out
}

impl DapServer {
    /// Converts a VM report to a DAP event (if applicable).
    pub fn response_to_event(&mut self, response: DapResponse) -> (r: Option<VmEvent>)
        ensures
            event_spec(response, old(self)@, r, final(self)@),
    {
        match response {
            DapResponse::Stopped { reason, location, hit_breakpoint_ids, exception_text } => {
                self.running = false;
                let mut description = owned("Paused at ");
                push_str(&mut description, location.filename.as_str());
                push_str(&mut description, ":");
                push_u64(&mut description, location.line as u64);
                assert(description@ =~= paused_at(location.filename@, location.line));
                let ids = match &hit_breakpoint_ids {
                    Some(v) => Some(widen(v)),
                    None => None,
                };
                let body = StoppedEventBody {
                    reason: owned(reason.as_str()),
                    description: Some(description),
                    thread_id: Some(MAIN_THREAD_ID),
                    all_threads_stopped: true,
                    hit_breakpoint_ids: ids,
                    text: exception_text,
                };
                Some(VmEvent::Stopped(body))
            },
            DapResponse::Continued => {
                self.running = true;
                Some(VmEvent::Continued(ContinuedEventBody { thread_id: MAIN_THREAD_ID, all_threads_continued: true }))
            },
            DapResponse::Output { category, output, location } => {
                let (source, line, column) = match &location {
                    Some(loc) => (
                        path_source(&loc.filename),
                        Some(loc.line as i64),
                        match loc.column {
                            Some(c) => Some(c as i64),
                            None => None,
                        },
                    ),
                    None => (None, None, None),
                };
                Some(VmEvent::Output(OutputEventBody { category: Some(category), output, source, line, column }))
            },
            DapResponse::Terminated => Some(VmEvent::Terminated),
            DapResponse::Exited { exit_code } => Some(VmEvent::Exited(ExitedEventBody { exit_code: exit_code as i64 })),
            _ => None,
        }
    }
}

} // verus!

verus! {

// ---------------------------------------------------------------------------
// Laws
// ---------------------------------------------------------------------------

/// The sequence number after `k` messages numbered from `start`.
pub open spec fn seq_after(start: i64, k: nat) -> i64
    decreases k,
{
    if k == 0 {
        start
    } else {
        successor(seq_after(start, (k - 1) as nat))
    }
}

proof fn lemma_seq_after_value(start: i64, k: nat)
    requires
        start + k <= i64::MAX,
    ensures
        seq_after(start, k) == start + k,
    decreases k,
{
    if k > 0 {
        lemma_seq_after_value(start, (k - 1) as nat);
    }
}

/// Sequence numbers are unique within a session: the `i`-th and `j`-th
/// messages sent get different numbers, as long as the numbering has not run
/// past the end of the `i64` range.
pub proof fn lemma_seq_numbers_distinct(start: i64, i: nat, j: nat)
    requires
        i < j,
        start + j <= i64::MAX,
    ensures
        seq_after(start, i) != seq_after(start, j),
{
    lemma_seq_after_value(start, i);
    lemma_seq_after_value(start, j);
}

/// A DAP stack frame keeps the VM frame's place: its id, name, source path
/// and line, and its column when the VM gives one; only a missing column is
/// reported as 1.
pub proof fn lemma_frame_info_keeps_location(info: StackFrameInfo, f: FrameSummary)
    requires
        frame_info_matches(info, f),
    ensures
        info.id == f.id as i64,
        info.name@ == f.name,
        info.line == f.location.line as i64,
        info.source matches Some(src) && opt_view(src.path) == Some(f.location.filename),
        f.location.column matches Some(c) ==> info.column == c as i64,
        f.location.column is None ==> info.column == 1,
{
}

/// The `initialize` response announces configuration done, function
/// breakpoints, evaluate for hovers and terminate debuggee, and nothing
/// else.
pub proof fn lemma_announced_capabilities()
    ensures
        server_capabilities().supports_configuration_done_request == true,
        server_capabilities().supports_function_breakpoints == true,
        server_capabilities().supports_evaluate_for_hovers == true,
        server_capabilities().support_terminate_debuggee == true,
        server_capabilities().supports_conditional_breakpoints == false,
        server_capabilities().supports_hit_conditional_breakpoints == false,
        server_capabilities().supports_step_back == false,
        server_capabilities().supports_set_variable == false,
        server_capabilities().supports_restart_frame == false,
        server_capabilities().supports_goto_targets_request == false,
        server_capabilities().supports_step_in_targets_request == false,
        server_capabilities().supports_completions_request == false,
        server_capabilities().supports_modules_request == false,
        server_capabilities().supports_terminate_request == false,
        server_capabilities().supports_exception_options == false,
        server_capabilities().supports_value_formatting_options == false,
        server_capabilities().supports_exception_info_request == false,
        server_capabilities().supports_delayed_stack_trace_loading == false,
        server_capabilities().supports_loaded_sources_request == false,
        server_capabilities().supports_log_points == false,
        server_capabilities().supports_terminate_threads_request == false,
        server_capabilities().supports_set_expression == false,
        server_capabilities().supports_single_thread_execution_requests == false,
{
}

} // verus!
