//! An offline end-to-end encrypted channel: an RSA handshake that hands an
//! AES-256-GCM key from a sender to a receiver, and the channel that key opens.
pub mod channel;
pub mod encoding;
pub mod error;
pub mod handshake;

pub use channel::E2EOffline;
pub use error::E2EError;
pub use handshake::{E2EOfflineBuilder, Role};
