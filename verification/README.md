# system_monitor

A small system monitor: an HTTP server that reports CPU, memory, process,
disk, network and uptime figures as JSON at `/metrics` and serves a
dashboard page at `/`.

- `src/` is the verified library (Verus): unit conversions (`units`), the
  selection of the processes with the most memory (`processes`), disk and
  network lines (`storage`, `network`), decimal text for the uptime and the
  start-up line (`text`), reading the `PORT` setting (`port`), and the whole
  report from one reading of the machine (`report`).
- `app/` is the server: it reads the machine with `sysinfo`, calls the
  library, adds the floating-point CPU figures, writes the JSON with
  `serde_json` and serves it with `axum` on `tokio`.
- `tests/` runs the library on concrete readings.
