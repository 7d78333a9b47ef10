//! A small, backend-agnostic key-value caching facade.
//!
//! Callers store and retrieve JSON-encoded values under string keys with a
//! time-to-live. The verified core covers key normalization, the on-disk
//! entry format with its lazy-expiration rule, the remote-store command
//! selection, and the facade's derived operations (`get_some`, `get_or`,
//! `get_or_init`). The surrounding I/O (filesystem reads and writes, the
//! remote store protocol, HTTP serving) lives outside this library and hands
//! it plain values.

pub mod clock;
pub mod codec;
pub mod errors;
pub mod filestore;
pub mod keys;
pub mod manager;
pub mod realip;
pub mod remotestore;

pub use clock::now;
pub use errors::{KvError, NotFoundError, not_found_error};
pub use filestore::KVFilesystem;
pub use keys::normailze_key;
pub use manager::{KVBackend, KVManager, KvGetOrInitResult};
pub use realip::{IpConnectInfo, RealIP};
pub use remotestore::KVRedis;
