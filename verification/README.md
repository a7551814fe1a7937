# immic

immic records what happens on a desktop — the foreground application, the
browser tabs reported by an extension, file changes under watched directories
and periodic screenshots — into a SQLite database, and lets a viewer browse
and search the records per day.

## Layout

- `src/` — the library, verified with Verus: which observations are recorded
  (`application`, `filelog`, `browser`, `screenshot`), the order of database
  statements when a record is stored and the decisions between them (`store`),
  the event-log stamps and the hourly grouping (`db`), the search pattern and
  the per-day tallies (`search`), and the tray and window decisions (`ui`).
  Calls into `chrono`, `url`, `regex`, `unicode-segmentation` and `std::path`
  stand behind small trusted wrappers in `time`, `browser`, `screenshot`,
  `search` and `paths`.
- `app/` — the desktop program around it: the Tauri plugins, the SQLite pool
  that runs the statements the library asks for, the HTTP endpoint for the
  browser extension, the file watcher, screen capture, and the serde copies of
  the records sent to the windows.
- `tests/` — tests of the library on concrete values.
