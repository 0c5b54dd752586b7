//! The server's configuration: set once at startup and only read afterwards.

use vstd::prelude::*;

verus! {

/// The read-only settings that parsing and response formatting consult.
#[derive(Debug)]
pub struct ServerConfig {
    /// The address the listener binds to.
    pub bind_addr: String,
    /// The directory outside of which no served file may resolve.
    pub doc_root: String,
    /// The file served for the target `/`.
    pub default_index: String,
    /// The file whose contents form the body of a 404 response.
    pub notfound_page: String,
    /// The protocol version that requests must name and responses carry.
    pub proto_version: String,
}

impl ServerConfig {
    pub fn new(
        bind_addr: &str,
        doc_root: &str,
        default_index: &str,
        notfound_page: &str,
        proto_version: &str,
    ) -> (config: ServerConfig)
        ensures
            config.bind_addr@ == bind_addr@,
            config.doc_root@ == doc_root@,
            config.default_index@ == default_index@,
            config.notfound_page@ == notfound_page@,
            config.proto_version@ == proto_version@,
    {
        ServerConfig {
            bind_addr: String::from_str(bind_addr),
            doc_root: String::from_str(doc_root),
            default_index: String::from_str(default_index),
            notfound_page: String::from_str(notfound_page),
            proto_version: String::from_str(proto_version),
        }
    }
}

} // verus!
