# mcfly

The rules of a shell command history, verified with Verus.

- `src/history/` decides which commands are recorded, which database statements record,
  list, search, move and delete them, and what is made of the replies. Work that takes
  several statements, or a look at the file system, is a state machine: each step takes
  what was learned and says what to do next.
- `src/autopilot.rs` turns text into the key events that type it.
- `src/text.rs` holds the character and byte arithmetic that both use.
- `app/` runs the statements on SQLite, looks at the file system and the clock, orders
  fuzzy matches by their rank, and sends key events.
- `tests/` runs the library on concrete values, most of it against an in-memory database.

The library trusts four functions of the standard library: `String::push`,
`str::to_lowercase`, `Path::file_name` and `Path::join`. What it assumes of each stands
beside it.
