//! A length-prefixed binary framing protocol for a broadcast chat service,
//! together with the membership and message-routing rules of its server.
//!
//! The wire format is a 6-byte header (version, content-type tag, big-endian
//! payload length) followed by the payload verbatim.  The server keeps an
//! address-keyed registry of logged-in clients; every mutation of that
//! registry goes through a single owner, so the rules here are stated and
//! proved as sequential transitions.

pub mod client;
pub mod codec;
pub mod registry;
pub mod sbmp;
pub mod session;
pub mod text;
