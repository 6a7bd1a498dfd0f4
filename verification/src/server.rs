//! The server side: sessions, the object store, and the endpoints.

pub mod local_server;
pub mod object_store;
pub mod paths;
pub mod server_config;
pub mod session_manager;
