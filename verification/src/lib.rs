//! A gateway between plain DNS over UDP and DNS-over-HTTPS.
//!
//! The crate holds the rules of the gateway as verified functions on plain
//! values: the message model and codec, the shape of an upstream exchange,
//! the forwarding state machine and the one-shot resolver. Sockets and HTTP
//! live with the caller, which performs the actions these functions ask for
//! and reports what happened.

pub mod message;
pub mod wire;
pub mod codec;
pub mod transport;
pub mod forward;
pub mod resolve;
pub mod startup;
