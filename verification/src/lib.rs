//! A single-node server core for a federated presence/status protocol.
//!
//! Each user publishes a small status record (name, free-text status, emoji,
//! currently-playing media, avatar) that peers fetch over HTTP and that the
//! user's own client updates through authenticated partial updates.  This
//! crate holds the verified core: the record model with field-level merge,
//! the wire codec, the credential check, the request router, and the
//! in-memory resource store the request handler works against.  Transport,
//! TLS and disk persistence are plumbing that a thin binary supplies.

pub mod auth;
pub mod chars;
pub mod codec;
pub mod parse;
pub mod record;
pub mod roundtrip;
pub mod router;
pub mod server;

pub use record::validate_username;
pub use record::Avatar;
pub use record::MediaType;
pub use record::UserData;
