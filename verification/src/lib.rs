//! Message-translation core of a two-way bridge between an Ethereum-style
//! gateway contract and a cross-consensus messaging network.
//!
//! The inbound half decodes raw event-log envelopes, enforces gateway-origin
//! and replay protection, decodes the embedded instruction program and hands
//! it to a transport.  The outbound half recognises one of two fixed
//! instruction-sequence grammars and emits a single gateway command together
//! with a delivery ticket.  Cryptographic verification, queueing and
//! asset-identifier registries are collaborators supplied by the caller.

pub mod codec;
pub mod envelope;
pub mod inbound;
pub mod nonce;
pub mod outbound;
pub mod payload;
pub mod program;
pub mod rewards;
pub mod types;
