# libsql_plugin

A SQLite plugin for hosts that exchange JSON through shared memory. A request is a verb
(`exec`, `query`, `serialize`, ...) and a JSON object; the answer is a JSON object with `ok`
and a payload or an error.

- `src/` is the library, verified with Verus. It decides everything and calls SQLite nowhere:
  a call names its next action and takes the result as an event.
  - `abi` the edge in bytes, `db` the verbs, `call` one call from connection to answer,
    `connections` what outlives a call;
  - `open`, `statement`, `operation` the machines that a call is made of, `driver` the actions
    and events between them and SQLite, `progress` the budget of a statement;
  - `json`, `text`, `path`, `base64` the data;
  - `ledger`, `runs`, `rows`, `answers` what holds over whole runs: nothing is used that is not
    held, all is given back or left to SQLite that is not kept, connections stay apart, every
    row arrives, every answer tells how it went.
- `app/` is the plugin itself: it makes the calls into SQLite and moves bytes between the
  host's memory and the library.
- `tests/` runs the library against scripts of calls and results.

JSON text is read and printed by `serde_json`; SQLite comes with `libsql-ffi`.
