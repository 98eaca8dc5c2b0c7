# codex_tui

The decisions of a terminal chat client, verified with Verus.

- `src/app.rs`: what each event of the client, the terminal and the keyboard
  changes, and what is to be done about it.
- `src/history.rs`: the transcript of a resumed session, with its recap.
- `src/session_meta.rs`: what a rollout file and its sidecar tell of a session.
- `src/status_line.rs`: the input of the status line command, when it runs, and
  which line comes of its output.
- `src/wrappers.rs`: the wrappers around stored messages.
- `src/lines.rs`, `src/text.rs`, `src/paths.rs`: styled lines, texts and
  `/`-separated paths.
- `src/json.rs`, `src/ids.rs`, `src/encoding.rs`: what is read through
  `serde_json`, `uuid` and the standard library, behind trusted functions.
- `app/`: the loop around the library: files, processes, the terminal.
