# hywdbg

The core of the HYWDbg debugger, verified with Verus: the newline-delimited
JSON protocol between front ends, the core and the backends, the core's
request routing, the simulated backends, the request handling of the
Windows debug-API backend and the text formatting of the console.

## Layout

- `src/` — the verified library.
  - `text.rs`, `num.rs`, `json.rs` — characters and strings, integer text
    (hex and decimal, both ways), JSON values with their mathematical view.
  - `protocol.rs`, `backend.rs` — frames and records, request parameters,
    answering one request line.
  - `mock_data.rs`, `mock.rs`, `mock_laws.rs` — the simulated GDB remote,
    LLDB and DbgEng backends as one state machine (`step`), the executable
    backend proved against it, and the laws that hold across calls.
  - `router.rs`, `pending.rs`, `http.rs` — the core: one backend at a time,
    forwarding under the front end's ID, the table of requests waiting for a
    backend, and the HTTP front door.
  - `winapi.rs`, `winapi_plan.rs`, `winapi_session.rs` — the Windows
    backend's logic that does not touch the system: hex text, the memory
    search and its walk, register file, software breakpoints, thread table,
    event reports, disassembly through iced-x86, the reading of each request,
    and the session's bookkeeping across debug events.
  - `console.rs` — the console front end: commands, the reading of the
    core's replies, address and register views, hex dumps, disassembly
    columns and the log.
- `tests/` — tests of the library on concrete values.
- `app/` — the programs around the library: the core daemon (TCP and HTTP),
  the backends on standard input and output, the Windows system calls, and a
  line console. They run as the program their file is named after, or as the
  one the first argument names.
