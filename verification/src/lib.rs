//! Typed GPU buffer management and a frame-batched staging-upload mechanism.
//!
//! The crate wraps device-resident buffers in types that remember the layout
//! of their elements, states a byte-exact uniform-conversion contract, and
//! keeps a registry of named staging belts whose per-frame submit/recall
//! protocol is governed by contracts.

pub mod buffer;
pub mod gpu;
pub mod layout;
pub mod mesh;
pub mod staging;
pub mod uniform;
