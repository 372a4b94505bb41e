# hyperlight_js_dap

Debug Adapter Protocol (DAP) support for JavaScript running in Hyperlight
guests, written in Verus: the decisions are verified against their contracts,
the I/O around them is ordinary Rust.

## Layout

- `src/` — the verified library.
  - `shared.rs` — the types guest and host exchange at a debug break.
  - `text.rs` — character-level helpers (search, trimming, decimal text).
  - `runtime/guest/` — the guest debugger state machine: breakpoints, call
    stack tracking, stepping modes, break events, host actions.
  - `runtime/main/` — the debugger of the runtime's main program, with its
    own JSON writing and reading of the host's answer.
  - `debug/` — the host side: DAP messages, wire types, errors, the break
    session that serves the DAP server while the guest is stopped, and the
    DAP server's session logic (framing, dispatch, request plans, events).
- `tests/` — tests of the library.
- `app/` — the glue that Verus does not see: TCP server thread, channels,
  process-global state, JSON (de)serialization, host calls and the
  JavaScript runtime's trace hooks.
