# imgfind

Image search by natural language: a library of the rules, written in Rust and
verified with Verus, and the command-line program around it.

- `src/` is the library. Every function states in its contract what it returns
  or changes, and is proved to do so.
- `app/` is the program: arguments, files, the database engine, decoders, the
  terminal, the network.
- `tests/` runs the library on concrete values, and its SQL on a real database
  held in memory.

## Modules

| Module | What it holds |
| --- | --- |
| `path_model`, `paths`, `locate` | Paths as sequences of components; stored and absolute paths; where a library's database is |
| `config`, `config_commands` | Configuration, ignore patterns, the `config` subcommands |
| `indexing`, `hashing`, `exif` | Which files are indexed, how they are hashed, what their metadata says |
| `decode`, `picture`, `thumbnail` | Which decoder runs next, orientation, renditions, the thumbnail writer |
| `processing`, `models`, `status` | The phases of background work, embedding models, the status report |
| `sql`, `schema`, `database`, `records`, `image_rows`, `stored_metadata`, `vector_sql`, `filters`, `sort` | The statements that the database is asked, and how its answers are read |
| `listing`, `grid`, `hash_tables` | Ordered listings and the map view |
| `migrate` | Moving a database from its earlier format, without ever losing it |
| `search`, `web` | Search results and their report, the HTTP front end |
| `telnet` | Protocol parser, half-block pictures, login, the server's start and its connection cap |
| `tui`, `ui_state`, `colors` | The terminal UI's state machine, the persisted session, color brushes |

## What is trusted

A function whose doc comment begins with "Trusted:" hands a call to another
crate or to the standard library, and its contract is believed rather than
proved. Where such a result takes too long to state, it has a name of its own
(`pub uninterp spec fn`), and contracts speak of that name.

Floating-point numbers stay outside the library. Where one passes through, it
is held by its bits.
