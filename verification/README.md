# farga

Farga is the project context substrate of the Occitan stack: a graph of
nodes (signals, artifacts, decisions, context layers, governance
contributions) and edges, a key/value store with expiry for coordination
between instances, a documentation tree, and an MCP tool server through
which agents read and write all of it.

This crate is the verified core, written in Verus. Every operation on the
store is an executable function whose contract states its effect over the
store's rows; the properties that span several operations (what a read
gives back after a write, what a delete or a supersession hides, that an
upsert keeps one record) are proof functions in `src/laws.rs`.

## Layout

- `src/kinds.rs`, `src/types.rs`: node and edge kinds, the records.
- `src/store.rs`, `src/integrity.rs`: the tables and their constraints,
  node and edge writes and reads.
- `src/query.rs`, `src/order.rs`, `src/sqlike.rs`: row filters, time
  ordering with limits, SQL `LIKE` matching.
- `src/graph.rs`: the subgraph around a node.
- `src/kv.rs`: the key/value store.
- `src/governance.rs`, `src/librarian.rs`: contributions, decisions,
  precedents and the librarian's prompt.
- `src/context.rs`: role-scoped context nodes.
- `src/routes.rs`: the operations behind the REST routes.
- `src/tools.rs`, `src/mcp.rs`: the MCP tools and the JSON-RPC layer.
- `src/docs.rs`, `src/client.rs`: documentation paths, client URLs and the
  lines the command-line tool prints.
- `src/json.rs`, `src/text.rs`, `src/clock.rs`: JSON values, text helpers,
  identifiers and instants.
- `app/`: the program around the library: the HTTP server over SQLite, the
  librarian loop and the command-line client.
