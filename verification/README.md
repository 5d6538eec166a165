# bicdb_sql

The planning core of the BicDB SQL layer: what is decided about a statement before and
after the storage engine does its work, with contracts that Verus proves.

- `src/` is the verified library. It scans and parses SQL under limits, reads queries
  and terms off the parsed trees, classifies migrations, narrows reads of the virtual catalogs and lists their rows, evaluates
  aggregates, windows and set operations over rows that the engine evaluated, keeps
  roles, privileges and user-defined types, and carries the settings, savepoints and
  undo log of a session. A few functions of `sqlparser`, `serde_json`, `regex`,
  `rustc-hash`, `h3o` and `stacker` are called behind declared contracts.
- `tests/` runs the library on concrete values.
- `app/` is ordinary Rust around it: limits from the environment, stored records, the
  texts of the parts of a statement, and the loop that asks an engine for what the library decided.

Functions whose names begin with `law_` state what holds of several functions together.
