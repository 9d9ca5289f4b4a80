# ai_cli_session_db

A store for the sessions of command-line AI tools, shared by several programs: what was said in
which session of which project, with full-text search, incremental collection from the tools' own
files, an agent that is the only writer, clients that talk to it, and a push to a server.

The library in `src/` is verified with Verus. It holds what the project decides and computes: the
SQL that runs with the values bound to it, how rows become records, which messages of a file are
new, who may write, what the agent answers and whom it tells, what is held back from a push, how far
a session is pushed, what crosses the C interface. Each function states in its contract what it
returns; the public proof functions state what holds of several of them together.

What cannot be decided in the library is in `app/`, ordinary Rust that does what the library says:
SQLite, files, sockets, the network, signals, and the pointers of the C interface.

| | |
|---|---|
| `src/db.rs`, `src/queries.rs`, `src/search.rs`, `src/sql.rs` | the store: rows, statements, searches |
| `src/effects.rs`, `src/tables.rs` | what the statements leave in the tables, and what follows for the store |
| `src/schema.rs`, `src/migrations.rs`, `src/repair.rs`, `src/archive.rs` | the tables and their upkeep |
| `src/collector.rs`, `src/writer.rs`, `src/session.rs` | from session files into the store |
| `src/reader.rs`, `src/json.rs`, `src/order.rs` | reading session files directly |
| `src/coordination.rs` | who may write |
| `src/agent/`, `src/client/`, `src/protocol.rs` | the agent, its clients, and what they say |
| `src/sync/` | pushing to a server |
| `src/calls.rs`, `src/ffi.rs` | the C interface |
| `src/text.rs`, `src/paths.rs`, `src/time.rs`, `src/host.rs` | texts, paths, times, the machine |
| `tests/` | the library at work, on SQLite where it speaks SQL |

Functions of other crates that verified code calls are behind small wrappers whose contracts are
believed; each says in its comment what is claimed. The words by which the tools are known in the
store are data that the caller gives, and so is whether paths are written as on Unix or as on Windows;
where a function asks the machine itself, its contract holds for either style.
