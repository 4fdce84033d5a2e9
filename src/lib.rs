//! Decision logic of a small file-upload service: the naming of stored
//! files and the per-request handling of multipart fields.

pub mod config;
pub mod naming;
pub mod runs;
pub mod session;
