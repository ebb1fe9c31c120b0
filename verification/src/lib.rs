//! Ignition: rate-limited real-time event streaming.
//!
//! The crate holds the decision logic of the Ignition servers and client SDK:
//! plan limits, the per-key usage registry and its recency cache, the
//! connection/authentication decisions, the message-handler decisions, the
//! queue-polling back-off state machine, request forwarding and the SDK's
//! payload framing and AES encryption.

pub mod text;
pub mod shared;
pub mod websocket;
pub mod polling;
pub mod sdk;
pub mod spark;
pub mod dedicated;
