//! A registry of the global identifiers visible in JavaScript execution
//! contexts: language editions, host platforms, and frameworks.  For each
//! environment the registry records every global identifier and whether user
//! code may reassign it (`writeable`).
//!
//! The composition engine takes a raw catalogue (environment name ->
//! identifier name -> writeable flag), computes the delta that one edition
//! introduces over its predecessor, layers curated per-edition deltas
//! cumulatively, injects curated framework overlays as standalone entries,
//! and emits a registry whose identifier tables are sorted by name so that
//! the result is reproducible from the catalogue contents alone.

pub mod order;
pub mod env;
pub mod table;
pub mod compose;
