//! Client configuration.

use vstd::prelude::*;

verus! {

pub const CLIENT_FILES_LOCATION: &'static str = "client_files";

/// Default port of the server.
pub const DEFAULT_SERVER_PORT: u16 = 1234;

/// Where the client finds the server.
#[derive(Debug, PartialEq, Eq)]
pub struct ClientConfig {
    pub server_hostname: String,
    pub server_port: u16,
}

impl Default for ClientConfig {
    fn default() -> (config: Self)
        ensures
            config.server_hostname@ == "localhost"@,
            config.server_port == DEFAULT_SERVER_PORT,
    {
        ClientConfig { server_hostname: "localhost".to_owned(), server_port: DEFAULT_SERVER_PORT }
    }
}

} // verus!
