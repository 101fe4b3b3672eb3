//! Core logic of a screen-lock client: the shared-memory buffer slot pool
//! that hands out pixel buffers to the renderer, and the lock state machine
//! that serializes password entry, credential checking, and idle decay.
//!
//! Protocol plumbing, rasterization, and the blocking credential check are
//! external collaborators; they live outside this crate and talk to it
//! through plain values.

pub mod application;
pub mod dims;
pub mod globals;
pub mod indicator;
pub mod keymap;
pub mod password;
pub mod pool;
