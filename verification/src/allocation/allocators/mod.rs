//! Allocators.
pub mod freelist_alloc;
