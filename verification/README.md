# rat_quickdb

The query layer of a multi-database ODM (SQLite, PostgreSQL, MySQL and a
document store), written in Verus: every function of `src/` carries a
contract over a mathematical model of its inputs and results, and Verus
proves it.

## Layout

- `src/types.rs`, `src/models.rs`, `src/error.rs`: values, conditions and
  condition trees, id strategies, registered models and their field kinds,
  errors.
- `src/query_builder.rs`, `src/sqlite.rs`, `src/update_operations.rs`: SQL
  statements and their parameter lists; `src/placeholder_count.rs` proves
  that a statement has one placeholder per parameter.
- `src/mongo.rs`, `src/mongo_records.rs`: query and update documents for the
  document store, and records written to and read back from it, with the
  laws that a read gives back what a write stored.
- `src/sql_inserts.rs`, `src/sql_rows.rs`, `src/sqlite_ops.rs`: what the SQL
  back ends bind, write and read back around their statements.
- `src/schema.rs`: table and index definitions.
- `src/templates.rs`, `src/procedures.rs`, `src/mongo_procedures.rs`: stored
  query templates, stored procedures, and the aggregation pipelines of the
  document store's procedures.
- `src/json_input.rs`: JSON objects handed in as a record's fields or as
  equality conditions; `src/bridge_requests.rs`: what the embedding
  bridge's request queue runs or answers at once, and the answers it gives.
- `src/json.rs`, `src/postgres_utils.rs`, `src/time.rs`, `src/render.rs`, `src/text.rs`,
  `src/numbers.rs`, `src/security.rs`, `src/cache_policy.rs`: JSONB
  conditions, time zone offsets, value texts, and cache invalidation.
- `app/`: the asynchronous adapter layer that drivers plug into.
- `tests/`: tests on concrete values.
