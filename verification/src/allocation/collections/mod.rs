//! Allocated collections.
pub mod arc_btree;
