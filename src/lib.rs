//! Message-execution context of a sandboxed program runtime: the per-invocation
//! state machine that records outgoing messages, the single reply and wake
//! requests, with every operation specified and verified.

pub mod bytes;
pub mod context;
pub mod errors;
pub mod ids;
pub mod idset;
pub mod laws;
pub mod message;
