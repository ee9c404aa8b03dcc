//! A verified client/registry for line-delimited JSON-RPC servers spawned as
//! subprocesses.
//!
//! The library holds the protocol and lifecycle logic: building the exact
//! request and notification lines, allocating request ids, the handshake
//! state machine of a client, the classification of peer output lines, and
//! the named-client registry. The pipe and process work itself is left to the
//! unverified host around the library, which hands lines in and out.

pub mod client;
pub mod codec;
pub mod errors;
pub mod json;
pub mod laws;
pub mod registry;
pub mod text;
