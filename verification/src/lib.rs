//! Tracks how a library's public API surface evolves across a sequence of
//! documentation snapshots, one per release.  The heart of the crate is a
//! signature normalization and equivalence engine: it decides when two
//! syntactically different signature fragments (a function declaration or an
//! `impl` header) denote the same API despite renamed generic or lifetime
//! parameters, reordered generic declarations, or discarded `where` clauses.
//! A cross-version linker uses that relation to stitch each version's API
//! list to the next.

pub mod api;
pub mod laws;
pub mod link;
pub mod parse;
pub mod scan;
pub mod sig;
pub mod text;
