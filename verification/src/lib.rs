//! A minimal static-file HTTP/1.1 core: request-line parsing, document-root
//! containment, and status-mapped response formatting.
//!
//! The crate performs no I/O. Callers resolve paths and read files, and hand
//! the outcomes to the functions here as plain values.

pub mod config;
pub mod method;
pub mod path;
pub mod request;
pub mod response;
pub mod status;
pub mod text;
