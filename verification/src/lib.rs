//! The weak-reference and finalization core of a tracing garbage collector,
//! together with the object-graph scanner that feeds it.
//!
//! Everything here works on plain values: object references are addresses,
//! object layouts are descriptors, and the collection engine is met through
//! the [`tracing::ObjectTracer`] and [`object_scanning::EdgeVisitor`] traits.

pub mod collection;
pub mod object_scanning;
pub mod tracing;
pub mod weak_processor;
