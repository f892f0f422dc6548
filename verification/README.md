# clash_ws

The client side of a WebSocket transport for proxied streams.

- `src/` is the library: every decision of the transport, with contracts that
  Verus proves.  It reads and writes no socket.
- `app/` is the driver: it implements the asynchronous traits, performs what the
  library asks for and reports the outcome.
- `tests/` runs the library together with the crates `http`, `bytes`, `rand` and
  `tungstenite`, whose behaviour the library relies on.  The functions that call
  them are marked `#[verifier::external_body]`; the comment above each says what
  is claimed of the call.
