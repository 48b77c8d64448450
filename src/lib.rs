//! An in-memory store of geotagged events with a spatial index and
//! combined box / attribute range queries.
//!
//! Numeric attributes and coordinates are carried as the bit patterns of
//! IEEE-754 doubles (`u64`); comparisons follow IEEE semantics through the
//! order key defined in `number`.
//!
//! - `number`: the order key and IEEE range tests on bit patterns.
//! - `event`: decoded features, event records, and attribute coercion.
//! - `index`: the R-tree over event locations.
//! - `store`: loading, box queries and filtering.
//! - `export`: the tabular layout of a filtered view.
//! - `laws`: properties that relate the operations.
pub mod event;
pub mod export;
pub mod index;
pub mod laws;
pub mod number;
pub mod store;
