//! An anonymous file drop: short identifiers for uploads, MIME detection with
//! a cache keyed by identifier, and the decisions behind the upload and serve
//! requests. Everything here is plain data in, plain data out; the HTTP
//! server, the disk and the locks live with the caller.

pub mod text;
pub mod mime_type;
pub mod ident;
pub mod detect;
pub mod sniff;
pub mod cache;
pub mod location;
pub mod serve;
pub mod upload;
pub mod config;
