# bomb

An HTTP and WebSocket stress-testing tool whose logic is a Verus-verified
library.

- `src/` is the library, verified by Verus: configuration (conversion of the
  command line, validation, presets, summaries), the placeholder grammar and
  the random values it draws, metrics per client and over all clients, the
  bookkeeping of awaited and broadcast messages, and the decisions of the
  clients (when a loop ends, when to reconnect, what a response counts as).
  `src/laws.rs` states the properties that relate several operations.
  Calls into `url`, `serde_json`, `regex`, `chrono`, `rand` and `uuid` go
  through small trusted wrappers whose contracts say what each call returns.
- `app/` is the program around it: command-line parsing with `clap`,
  logging, the clock, the async clients on `tokio`, `reqwest` and
  `tokio-tungstenite`, the floating-point rates and draws, and the printed
  report.
- `tests/` runs the library on concrete values.
