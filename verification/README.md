# diary_core

A command-line diary kept in SQLite or PostgreSQL.

- `src/` is the verified library:
  - `query.rs`: the SQL statements of the store (text and bound values), the
    checks made before they run, and the laws of paging;
  - `placeholders.rs`: the law that every statement binds exactly one value to
    each of its `$n` placeholders;
  - `backend.rs`: choosing the database from its URL, and preparing it;
  - `config.rs`: reading the database URL from an INI document;
  - `entry.rs`: the entry model and the text an entry is shown as;
  - `cli.rs`: what the command-line arguments ask for, and how a listing is shown;
  - `text.rs`: decimal numbers, prefixes and replacement on strings.
- `app/` runs the program: argument parsing, reading the configuration file,
  and running the library's statements against the database.
- `tests/` exercises the library, including its statements on an in-memory
  SQLite database.
