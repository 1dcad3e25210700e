//! Compute data-marshalling and dispatch orchestration for a voxel simulation.
//!
//! The crate covers the host side of a compute pipeline that drives a voxel
//! world: serializing heterogeneous scene objects (particles, portals, edges,
//! dynamic bodies) into compact tagged binary buffers, pairing portals into a
//! fixed table of traversal slots, scheduling a dependency-ordered chain of
//! compute kernel dispatches gated by pipeline readiness, and reconciling one
//! frame's readback results onto the scene entities that produced them.
//!
//! All floating-point scene values cross this crate's boundary as raw 32-bit
//! bit patterns, exactly as they sit in the device buffers; the caller converts
//! between `f32` values and their bit patterns at the edge.

pub mod dispatch;
pub mod extract;
pub mod physics;
pub mod tagged;
