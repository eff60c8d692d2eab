//! Game of Life generation-update engine.
//!
//! A flat, bounds-checked grid buffer ([`grid::BMatrixVector`]), the classical
//! transition rule over Moore neighborhoods ([`rule`]), a region partitioner
//! that splits a buffer into disjoint contiguous work items ([`partition`]),
//! interchangeable update backends ([`engine`]), and the busy-skip
//! double-buffer protocol that overlaps computing one generation with
//! consuming the previous one ([`coordinator`]).

pub mod coordinator;
pub mod engine;
pub mod grid;
pub mod partition;
pub mod patterns;
pub mod rule;
pub mod sync_utils;
