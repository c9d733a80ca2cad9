//! Module-resolution, fetch, transpile-cache, and bundling core.
//!
//! The crate verifies the logic that locates, caches, and hands modules to
//! the external graph-builder, transpiler, and emitter collaborators:
//! configuration merging, cache-key derivation, the in-memory module store,
//! scheme dispatch, module-kind classification, and output planning.

pub mod bundler;
pub mod config;
pub mod ident;
pub mod loader;
pub mod options;
pub mod store;
