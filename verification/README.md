# hygg

A terminal reader with reading progress and line highlights, and the small
service that keeps progress, locks and highlights for several readers.

- `src/` is the verified library (Verus):
  - `editor/`: the reader's state machine (keys, search, visual selection,
    commands, what each screen row shows);
  - `progress/`: the progress log of events, highlights replayed from it,
    export, and the decisions taken when highlights live on the service;
  - `journal.rs`: the journal form of the log, where an undo is an entry;
  - `progress_compat.rs`: undo by taking an entry out of the log;
  - `service.rs`: the service's lock table and file naming rules;
  - `server.rs`: requests and addresses the reader sends to the service;
  - `text.rs`: text helpers (decimal numbers, search, trimming).
- `app/` is the program around it: terminal drawing and input, the progress
  file, the HTTP client, and the HTTP service with its database.
- `tests/` runs the library on concrete values.
