# offlite

Offline-first SQLite storage with a built-in sync engine, written in Verus.

- `src/` is the library. Verus proves the contract of every function, but for the
  small wrappers around calls into other crates (most are in `src/driver.rs` and
  `src/json.rs`): their contracts are trusted, and each says of which call.
- `app/` is the Tauri plugin around it: files, network, background tasks and the
  commands of the front-end.
- `tests/` runs the library, with a real SQLite underneath.

## How the contracts speak of the database

What SQLite answers depends on what is on disk, so the contracts do not predict
it. Every call into the driver notes itself, with its answer, in a trace that
exists in contracts only (`src/driver.rs`). A contract over the log of a `Store`
says what was handed to the database, in which order, and how the answers were
used. `resolve_conflict`, for example, reads the timestamp of the local document,
writes the server's version exactly if it wins by last-write-wins, and returns a
resolution that says so.

What this comes to in the tables is a second layer (`src/tables/`): it states
what the library's own SQL texts mean, on tables with the library's columns and
keys, and proves from the contracts that, for instance, pulling the same changes
twice alters nothing, and that a checkpoint is read back as it was set.

## Modules

| Module | Holds |
| --- | --- |
| `database` | the open databases: the global one and those of the projects |
| `schema` | tables for documents, their indexes, the change-log table |
| `commands` | executing, querying and batches for the front-end |
| `changelog` | the log of local changes that wait to be pushed |
| `sync::push`, `sync::pull` | the two directions of a sync |
| `sync::conflict` | last-write-wins and the conflict log |
| `sync::sse` | the listener to the server's event stream |
| `sync::engine` | modes, retries and lifecycle of the engine of each project |
| `tables` | what the commands and queries mean for the tables |
| `store`, `rows`, `driver` | the way to SQLite |
| `request`, `chain` | commands with their messages, and commands in a row |
| `sql`, `json`, `text`, `clock`, `encoding`, `registry` | values, texts and times |
