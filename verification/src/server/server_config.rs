//! Server configuration.

use vstd::prelude::*;

verus! {

pub const SERVER_FILES_LOCATION: &'static str = "server_files";

/// Default port that the server listens on.
pub const DEFAULT_LISTEN_PORT: u16 = 1234;

/// What the server is configured with.
#[derive(Debug, PartialEq, Eq, Clone, Copy)]
pub struct ServerConfig {
    pub server_port: u16,
}

impl Default for ServerConfig {
    fn default() -> (config: Self)
        ensures
            config.server_port == DEFAULT_LISTEN_PORT,
    {
        ServerConfig { server_port: DEFAULT_LISTEN_PORT }
    }
}

} // verus!
