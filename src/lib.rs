//! An on-demand image transformation cache: request heads, query parsing,
//! cache keys, freshness of cached entries, resizing and re-encoding, content
//! negotiation and response assembly. Reading sockets and files is left to
//! the caller, which hands the library plain bytes and times.

pub mod text;
pub mod response;
pub mod content;
pub mod options;
pub mod key;
pub mod cache;
pub mod transform;
pub mod serve;
pub mod request;
