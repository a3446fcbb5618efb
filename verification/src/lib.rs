//! Client-side core of a password-vault synchronization client: the vault
//! data model, a JSON codec for the wire and cache formats, request
//! construction and response interpretation for the three network
//! operations, and the encoding used by the local cache files.
//!
//! All network and file I/O lives outside this library; the functions here
//! compute request bodies and headers from plain values and interpret
//! status/body pairs handed back by the transport.

pub mod model;
pub mod json;
pub mod text;
pub mod codec;
pub mod protocol;
pub mod store;
