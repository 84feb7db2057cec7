# binder_trace

User-space side of an Android Binder tracer: a kernel module streams Binder
transactions over a custom socket family, and this crate turns them into JSONL
messages, a btcap history file, a terminal UI, a WebUI and an MCP service.

The library under `src/` is written in Verus: each function carries a
`requires`/`ensures` contract over mathematical models (`Seq`, `Map`, `int`),
and the laws that span several functions are stated as public proof functions.

## Layout

- `src/common.rs`, `src/socket_ipc.rs` — the shared event ABI, control
  requests and ioctl numbers, feature probing.
- `src/decoder.rs`, `src/platform.rs` — raw event decoding, Parcel interface
  tokens, the Android platform method table and its tab-separated form.
- `src/storage.rs`, `src/agent.rs` — JSONL message envelopes (every message is
  one line), the agent's startup messages and event batches.
- `src/history.rs` — btcap file layout: header, fixed-size records, growth
  within a byte limit; records read back as written.
- `src/query.rs`, `src/ranking.rs`, `src/mcp.rs`, `src/webui.rs` — event
  filters, paging, interface rankings and the MCP and WebUI answers.
- `src/kernel_config.rs`, `src/ebpf.rs`, `src/startup.rs`, `src/web.rs` —
  kernel configuration checks, capture policies and small settings types.
- `src/text.rs`, `src/tui/` — display widths, fitting and truncation, and the
  terminal UI: state, key input, panels, status line and languages.
- `app/` — the `binder-trace` program: argument parsing, the socket and file
  I/O, the servers and the event loops, driving the library.
- `tests/` — tests of the library, run against the real dependencies.
