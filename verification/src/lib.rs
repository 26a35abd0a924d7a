//! A control-plane layer for an external container runtime.
//!
//! The library builds command-line invocations for the runtime (create/run,
//! start, stop, listing) and parses the runtime's semicolon-delimited listing
//! output back into a typed container model. Process spawning itself is left
//! to the caller: every function here is a pure value transformation.

pub mod action;
pub mod builder;
pub mod container;
pub mod error;
pub mod image;
pub mod protocol;
pub mod socket;
pub mod socket_map;
pub mod text;
