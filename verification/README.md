# otelwasm_rust_sdk

Guest-side SDK for the otelwasm plugin ABI, verified with Verus.

- `src/` is the verified library: the status model (`status`), the registry of
  buffers pinned for the host (`memory`), HTTP URL/request/response handling and
  socket addresses (`socket`), decimal and whitespace helpers (`text`), the
  platform-neutral host and the configuration-fetch protocol (`host`), and the
  runtimes that drive a user's processor, exporter or receiver (`runtime`).
  Every runtime entry point takes what the host supplied and returns a `Reply`
  (status code, reason to report, traces to hand over).
- `app/` is the unverified shell for `wasm32` guests: the host imports, the
  process-wide registry, the HTTP transport over `wasmedge_wasi_socket`, the
  loops that perform the host calls a `Reply` or `ReceiverStep` asks for, and
  the `register_*` macros that export the ABI.
- `tests/` exercises the library on the host platform.
