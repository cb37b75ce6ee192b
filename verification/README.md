# tork_orm

Backend-neutral SQL generation, DDL rendering and SQL-file migrations, with the
logic of the `tork-orm` command-line tool — written in Verus, with every
function's behaviour stated in its contract and proved.

## Layout

- `src/dialect/` — the SQLite, PostgreSQL and MySQL spellings (identifier and
  literal quoting, placeholders, column types, transaction statements) and the
  query writer that renders expressions and `SELECT`/`INSERT`/`UPDATE`/`DELETE`
  statements with bound or inlined values; `sql.rs` holds the specification of
  what the writer produces.
- `src/query/` — the query AST, typed column handles and function builders.
- `src/value.rs`, `src/row.rs` — the values that cross the driver boundary, how
  Rust values bind as parameters and read back, and result rows.
- `src/persist.rs` — the statements a model's write methods send (create, bulk
  create, upsert, save with `updated_at` and optimistic locking, delete, soft
  delete and restore) and how they read the answers.
- `src/relation.rs`, `src/preload.rs` — relations between models, and the
  decisions of preloading: which keys to ask for, in how many queries, and which
  related rows belong to which parent.
- `src/enums.rs` — enums stored as one of a fixed set of text values.
- `src/model.rs`, `src/index.rs` — model columns, foreign keys and indexes.
- `src/migration/` — the DDL AST and its rendering, the schema builder, the
  diff that generates a migration from models and the live schema, migration
  files (parsing, the revision chain, checksums), the bookkeeping table's
  statements, and the runner's plans for `up`, `down` and `status`.
- `src/config.rs` — the `[package.metadata.tork]` settings of a `Cargo.toml`.
- `src/database.rs` — choosing a backend from a database URL.
- `src/cli/` — the command line's grammar, configuration resolution, migration
  scaffolding, styling and every text the commands print.
- `app/` — the `tork-orm` binary: files, the environment, the SQLite
  connection and the terminal, around the library.

## Laws

Besides each function's contract, `src/` proves properties that span
functions, among them: quoting identifiers and string literals is injective
(`dialect`), bringing a chain up twice runs nothing the second time
(`migration::runner`), the chain of migration files does not depend on the order
they are listed in and a file's identity does not depend on its name
(`migration::files`), a rendered migration file reads back as written
(`migration::reading`), values bound as parameters never change the SQL
text (`dialect::shape`), a bound value reads back as itself (`value`), a bulk
create inserts every row once, in order, within the parameter ceiling
(`persist`), the keys a preload asks for are distinct (`preload`), and
normalizing a migration name is idempotent
(`cli::scaffold`).
