# nanograph

The logic of nanograph, an on-device typed property graph database, written and proved in
Verus.

- `src/schema/`, `src/catalog.rs`, `src/types.rs`: the schema language, its checks and the
  catalog built from it.
- `src/store/`: manifests, the commit plan, logs and snapshots as tables, storage layouts,
  locations, indexes, text search, caches, embeddings and media.
- `src/plan/`: the columns of query bindings and the cache of compiled queries.
- `src/cli/`: what the commands decide and print.
- `src/text.rs`, `src/strings.rs`, `src/path.rs`, `src/sort.rs`, `src/names.rs`,
  `src/json.rs`, `src/arrow.rs`: the foundations.
- `app/`: the program around the library. It reads and writes files, talks to tables through
  the `TableIo` trait, runs embedding models and prints.
  Paths are those of POSIX, with components separated by `/`; the program does not run on a
  machine that separates them otherwise.
- `tests/`: tests of the compiled library.

Proof functions named `law_*` state what holds across functions.
