# notedeck_store

The storage rules of a note client's local SQLite database: accounts, detected
servers, and the caches of notes, page summaries and chat messages.

`src/` is the verified library. An operation of `Database` is data: a statement,
a query or a transaction for the engine, and, with `_reply` behind its name, a
function from the engine's answer to the result. Opening the database and backing
it up are steps that the library decides on and its caller takes.

- `sql`, `value`, `text`: statements and queries, and the SQL that they are sent as
- `tables`: what they mean for the tables
- `schema`: the tables themselves
- `decode`, `records`, `error`: what is read from answers
- `accounts`, `servers`, `notes`, `eviction`, `summaries`, `chat`, `messages`,
  `lifecycle`: the operations
- `laws`: what holds of the operations together

`app/` runs the library on disk: connections, files, the clock, and JSON. `tests/`
runs it against a real engine.
