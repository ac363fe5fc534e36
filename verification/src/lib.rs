//! A caching HTTP reverse proxy, as a library of verified decisions.
//!
//! The crate holds the parts of the proxy that compute: the wire format of a
//! cached exchange, the cache key, host admission, the rewrite of a request
//! towards the origin, the freshness rules, the request state machine and the
//! protocol that pauses database replication around a local write. Sockets,
//! files and the database stay with the program that links this library.

pub mod admin;
pub mod admission;
pub mod codec;
pub mod directive;
pub mod key;
pub mod message;
pub mod origin;
pub mod pipeline;
pub mod policy;
pub mod replication;
pub mod text;
pub mod time;
pub mod varint;
