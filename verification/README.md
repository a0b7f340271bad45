# codex-ios-platform

Glue between Codex and an iOS host application, with its logic verified in
Verus.

- `src/` — the verified library:
  - `json` — JSON string escaping and the flat string-valued payload objects
    sent with unsupported-operation reports; proved to read back exactly.
  - `text` — decimal formatting, space-joined lists, string appends.
  - `buffer` — NUL-terminated buffers shared with the host: reading,
    truncating and all-or-nothing writes, the message left by the host's
    unsupported-operation callback; proved read-after-write.
  - `platform` — statuses, errors, default messages, what a callback's
    status and output amount to, callback-table acceptance.
  - `payloads` — the payload of each platform operation.
  - `process` — spawn bookkeeping and routing of the host's process output.
  - `registry` — handle-keyed registries and the handle counter.
  - `code_mode` — cancellation tokens per cell, session lifecycle, runtime
    responses, and the replies written back to the host.
  - `app_server` — start/stop decisions of the embedded app-server and the
    stdio reader's state machine.
- `app/` — the C ABI, process-wide statics, callbacks into the host and the
  async plumbing, calling the library for every decision.
- `tests/` — scenario tests of the library.
