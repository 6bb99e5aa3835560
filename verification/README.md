# cortex_rs

A memory engine for agents: entities and claims kept in SQLite (WAL mode, FTS5
full-text index), written by upsert, hidden by retraction, and read by lookup,
lexical search, recall and claim traversal, behind a bearer-token HTTP API.

The library under `src/` is verified with Verus:

- `store.rs` — the SQLite statements, each one call into `rusqlite` with a
  contract over the contents of the tables it reads or writes.
- `db.rs` — the store: upsert with deduplication by name, retraction, lookup,
  search (recent listing, FTS5 expression or phrase, `LIKE` fallback), recall
  candidates and traversal, with contracts over the tables. Where a SQLite call
  may fail and the failure is passed over (the full-text passes of a search, the
  index refresh after a write), the contract states what holds of every outcome,
  and the search's answer is stated as an exact function (`full_text_section`,
  `merge_fallback`) of those outcomes.
- `ranking.rs` — where a recall query occurs in an entity, and the stable
  best-first ranking of scored candidates.
- `api.rs`, `auth.rs` — the decisions of the HTTP routes and the token check.
- `text.rs`, `models.rs`, `services.rs`, `runtime.rs` — text helpers, the
  values exchanged, identifiers/timestamps/JSON, and the in-process runtime.
- `laws.rs` — properties across operations (read after write, deduplication,
  retraction hiding, complete full-text passes listed, idempotent spaces, bearer
  acceptance).

`app/` is the server around it: command line, axum routes, the embedding
encoder client, the real-valued scores (cosine similarity, BM25 score), JSON
forms of the values, and the benchmark.
