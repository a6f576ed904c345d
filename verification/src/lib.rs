//! Farga: the fractal project context substrate.
//!
//! The crate holds the graph model of Farga (nodes, edges, governance
//! assessments, the key/value store), the operations the server performs on
//! it, the MCP tool dispatcher and the small pieces of text logic (URL and
//! path building, SQL `LIKE` matching) that the server and its clients use.

pub mod kinds;
pub mod clock;
pub mod types;
pub mod text;
pub mod sqlike;
pub mod json;
pub mod order;
pub mod store;
pub mod graph;
pub mod kv;
pub mod governance;
pub mod query;
pub mod routes;
pub mod context;
pub mod tools;
pub mod mcp;
pub mod docs;
pub mod client;
pub mod librarian;
pub mod laws;
pub mod integrity;
