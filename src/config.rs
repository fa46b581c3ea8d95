//! The configuration the server runs with.
use vstd::prelude::*;

verus! {

/// Application settings, fixed once loaded.
#[derive(Debug, PartialEq, Eq)]
pub struct AppConfig {
    pub database_path: String,
    /// Sent to each client on connect and shown in page metadata.
    pub app_version: String,
    /// How many framed-socket connections are served at once.
    pub max_users: u64,
    /// The names of the configured services, in name order.
    pub services: Vec<String>,
}

} // verus!
