//! A two-layer spatial-indexing primitive for a hierarchical sky tessellation.
//!
//! The `zuniq` module is an integer codec packing a cell designator (a depth
//! and a hash index at that depth) into a single unsigned integer whose
//! numeric order follows the z-order traversal of the tessellation, together
//! with the cross-depth overlap predicate on cells. The `zuniq32` module is
//! the same codec instantiated on 32 bits instead of 64.
//!
//! The `mom` module is a multi-order map: a sorted, non-overlapping sequence
//! of (zuniq, value) entries supporting containment and overlap queries by
//! binary search.

pub mod mom;
pub mod zuniq;
pub mod zuniq32;
