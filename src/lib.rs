//! Content fingerprinting of the static assets that a markup document
//! references: hashing, naming, path resolution and the per-reference
//! decisions of the rewriting pass.

pub mod xxhash;
pub mod hex;
pub mod naming;
pub mod rewrite;
