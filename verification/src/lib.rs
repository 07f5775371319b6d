//! The core of a transaction client: resolving a replay token, building a
//! message, gathering signatures from signers that may sit on different
//! machines, joining what they signed, and submitting the result.

pub mod error;
pub mod framing;
pub mod laws;
pub mod message;
pub mod nonce;
pub mod resolver;
pub mod rpc_config;
pub mod session;
pub mod signer;
pub mod submit;
pub mod transport;
pub mod types;
pub mod wire;
