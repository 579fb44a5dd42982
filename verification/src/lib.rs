//! Resource-lifecycle core for a real-time frame renderer.
//!
//! The library manages host-visible staging data, bump-style device
//! sub-allocation, growable per-frame vertex data, and the delayed
//! destruction of GPU resources that must outlive their last recorded use.
//! Device handles are carried as plain integer values; the surrounding
//! application performs the actual device calls and feeds the results back
//! into the verified state machines defined here.

pub mod buffer;
pub mod cleanup_queue;
pub mod frame_cycler;
pub mod handles;
pub mod linear_allocator;
pub mod memory;
pub mod push_buffer;
