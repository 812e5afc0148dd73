# pdt — verified core of a document/asset store

PDT stores knowledge assets with free-form tags, a relation graph, named
collections, full-text search, an audit log and per-asset authorization
contexts, optionally split into per-tenant SQLite instances.

The library in `src/` holds the decisions and is verified with Verus; the
server in `app/` performs the I/O around it.

## Library (`src/`)

- `models/` — assets, tags (validation rules), relations, collections, audit
  entries, authorization contexts (merge and cascade of context updates).
- `query.rs` — the SQL of listings and searches as text plus bound values
  (one value per placeholder), and the paging of fetched rows.
- `store.rs` — new assets, assets read back from rows, and the statements
  that write assets.
- `docstore.rs` — find plans of the document store (filters, seek position,
  order, row limit).
- `search.rs` — the FTS5 match expression (quoted phrases only), tag filters,
  document-store text search.
- `graph.rs` — the cycle check for new relations, descendant walks and
  depth-limited traversals, as state machines fed with fetched relations.
- `services.rs` — request checks, audit records, and the state machines of
  relation creation and authorization-context updates.
- `auth.rs`, `cedar.rs` — authentication decisions and responses; entities and
  permission checks handed to the policy engine.
- `tenant.rs` — instance ids, path layout, provisioning, routing, deletion and
  listing of instances.
- `config.rs`, `params.rs` — configuration from environment values and
  request parameters with their defaults.

## Server (`app/`)

`main.rs` reads the environment and serves the HTTP API with axum;
`storage.rs` (SQLite) and `documents.rs` (MongoDB) run what the library plans;
`tenants.rs` probes the instances directory; `wire.rs` holds the JSON shapes.
