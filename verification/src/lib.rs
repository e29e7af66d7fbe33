//! A bridge between a screensaver-inhibition RPC interface and a
//! compositor's idle-inhibition protocol.
//!
//! The verified core is in two parts: [`discovery`] drives the handshake
//! that binds the two compositor capabilities needed before any inhibitor
//! can exist, and [`registry`] keeps the cookie-keyed store of active
//! inhibitors that the two RPC operations work on.

pub mod discovery;
pub mod registry;
