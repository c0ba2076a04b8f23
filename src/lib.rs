//! Typed channels whose messages carry bytes together with a side band of
//! channel endpoints and shared-memory regions.
//!
//! The transport is in-process: every channel lives in a [`platform::Transport`],
//! which each operation takes explicitly, so that the effect of every send and
//! receive is stated in its contract. [`codec`] holds the encoding of values
//! and their side bands, [`ipc`] the typed endpoints, and [`laws`] what holds
//! across several operations.

pub mod codec;
pub mod ipc;
pub mod laws;
pub mod platform;
