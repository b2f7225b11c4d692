//! Core of a small real-time rendering engine: device-memory accounting, a
//! growable GPU buffer with copy-on-grow semantics, and a handle-indexed
//! sparse-set instance store that keeps a contiguous visible prefix.
//!
//! The surrounding platform layer (window, swapchain, pipeline, raw device
//! calls) lives outside this crate; the core works on the plain values that
//! layer hands in and states its behaviour in contracts.

pub mod allocator;
pub mod buffer;
pub mod commands;
pub mod model;
pub mod queue_families;
pub mod records;
