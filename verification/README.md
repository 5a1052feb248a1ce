# plexel

The verified core of a desktop screen-memory application. The application
periodically captures the screen, recognises its text, and stores a record of
it in SQLite; this library holds the logic of that pipeline, proved with Verus.

- `src/text.rs`: tokenising (alphanumeric runs, trimmed and lowercased), the
  lines of a text as `str::lines` splits them, and the summary of its first
  three non-blank lines.
- `src/hashing.rs`: SHA-256 fingerprints in lowercase hex, the bucket of a
  token, and a text's per-bucket term counts.
- `src/record.rs`: the record derived from recognised text.
- `src/monitor.rs`: the monitoring state, its transitions, and the decisions
  taken after a capture and after text recognition.
- `src/clock.rs`: reading the clock without panicking, as an RFC 3339 UTC time
  and a compact stamp.
- `src/paths.rs`, `src/commands.rs`: data locations (joined with the
  platform's path separator), file names, greeting and the default listing
  limit.
- `src/laws.rs`, `src/trim_laws.rs`, `src/ascii_laws.rs`: properties across these functions.

`app/` is the Tauri application around it: screen capture, OCR, the database,
the monitoring loop and the commands. It converts term counts into the
unit-length float vector the user interface receives.
