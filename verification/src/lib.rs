//! Client side of the Source-engine remote console (RCON) protocol.
//!
//! The crate frames requests, decodes replies and decides, step by step, what
//! one request/response exchange does next. It performs no input or output
//! itself: the caller owns the stream and drives an [`Exchange`].

pub mod client;
pub mod errors;
pub mod exchange;
pub mod trace;
pub mod types;
pub mod wire;

pub use client::RCONConfig;
pub use errors::RCONError;
pub use exchange::{Action, Event, Exchange};
pub use types::{AuthRequest, AuthResponse, ExecuteResponse, RCONRequest, RCONResponse};
