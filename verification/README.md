# resq_mcp

Verified analysis core of an MCP (Model Context Protocol) server that gives
AI agents a Quake 3 VM (QVM) analysis workbench: open a module, list and
search functions, disassemble, decompile, inspect literal strings, trace
cross references and classify memory addresses.

## Layout

- `src/` — the library, verified with Verus:
  - `model.rs`: plain-value model of an opened module (header,
    instructions with what the loader reports about their operands,
    function spans).
  - `index.rs`: the per-function summary (syscalls, string literals,
    direct callees) built when a module is opened.
  - `session.rs`: the session: opening, name resolution, cross references,
    annotated listings, address classification.
  - `tools.rs`: which tool a `tools/call` runs, argument defaults and
    bounds, filtered and paginated tables, tool definitions.
  - `protocol.rs`: protocol version negotiation and method routing.
  - `text.rs`: integer rendering, clipping, string helpers.
  - `laws.rs`: properties across operations (callers mirror callees,
    resolution by index and placeholder agree, pages concatenate, ...).
- `tests/` — tests of the library on small synthetic modules.
- `app/` — the server program: stdio JSON-RPC transport, loading modules
  with the QVM toolchain crate, JSON in and out.
