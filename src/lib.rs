//! Transport layer for delegating per-frame rendering to a worker process.
//!
//! A host ("server") and a worker ("client") share one memory arena holding
//! the source frames and the output frame, and exchange short control
//! messages over an ordered byte channel. This crate holds the frame
//! geometry, the wire format of the control messages, and the two protocol
//! engines as typestates; spawning processes, mapping memory and moving bytes
//! through pipes is left to the caller.
pub mod client;
pub mod layout;
pub mod message;
pub mod protocol;
pub mod server;
pub mod wire;
