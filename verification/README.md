# cedict_lookup

The verified core of a Chinese-English desktop dictionary.

- `src/text.rs`: Unicode whitespace, trimming, splitting into terms, joining.
- `src/command.rs`: routing of a query to the character search (queries with a
  CJK ideograph, and empty ones) or to the full-text search.
- `src/repository.rs`: the SQL statements of both searches, the escaping of
  free text into an FTS5 query, and the SQLite repository (`rusqlite`).
- `src/clipboard.rs`: the clipboard watcher's decisions (which content is new,
  what to search for it, image signatures by MD5).
- `src/monitor.rs`: the start/stop decisions of the clipboard monitor.
- `app/`: the Tauri application: commands, resources, threads, clipboard and
  OCR I/O.
