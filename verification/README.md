# opcuasim

The toolkit-independent core of an OPC UA simulation suite (a master station
that connects, browses, monitors and calls methods, and an address-space
simulator), written in Verus with its behaviour stated in contracts and proved.

Layout:

- `src/` — the verified library: the master's view model (connection list,
  browse tree, monitoring table, communication log, dialogs, toasts, the
  handling of backend events), the pollers' decisions, the server's view-model
  rules, validation of user input, and the shared palette. Outside crates are
  reached only through a few trusted wrappers (`uuid` for fresh ids,
  `indexmap` for the ordered row table, `chrono` for reading RFC 3339 times,
  `str::to_lowercase`).
- `tests/` — executable tests of the library on concrete values.
- `app/` — glue that cannot be verified: egui styling and the process-wide
  theme setting, window settings on disk, the tokio backend handle, font
  loading, history charts (floating point) and serialisable record copies.
