# godot_wtransport

A WebTransport client core for a Godot GDExtension, with its logic proved
correct by Verus.

- `src/` is the verified library: error classification (`error`), events
  (`event`), the bounded event queue with its drop and backpressure rules
  (`queue`), the session and stream registry that decides every client
  command and runs the writes and finishes of each stream one at a time, in
  order (`client`, over the hash collections in `registry`), trust-store and
  configuration building (`tls`, on `rustls` and `wtransport`), the C ABI
  values (`ffi`), the development server's command line (`devserver`), the
  ABI header consistency rule (`abi`), and properties that span several
  operations (`laws`).
- `app/` holds the Tokio runtime and `wtransport` connections that carry out
  the registry's decisions, the panic-safe C entry points, the development
  echo server and the header task.
- `tests/` exercises the library on concrete values.
