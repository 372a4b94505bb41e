//! Entry points the runtime adapter uses to drive the debugger state machine.

use vstd::prelude::*;

use super::dap::{enable, reset, reset_view, DebuggerState, DebuggerView};

verus! {

/// Enables the debugger with optional stop-on-entry.
pub fn enable_debugger(state: &mut DebuggerState, stop_on_entry: bool)
    ensures
        final(state)@ == (DebuggerView {
            enabled: true,
            stop_on_entry: stop_on_entry,
            first_op: true,
            ..old(state)@
        }),
{
    enable(state, stop_on_entry);
}

/// Resets per-invocation debugger state (at handler registration and
/// dispatch).
pub fn reset_debugger_state(state: &mut DebuggerState)
    ensures
        final(state)@ == reset_view(old(state)@),
{
    reset(state);
}

} // verus!
