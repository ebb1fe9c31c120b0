//! The shared server's configuration.

use vstd::prelude::*;

verus! {

/// Settings read from the environment at start-up.
#[derive(Debug)]
pub struct Config {
    /// The PostgreSQL connection URL.
    pub db_url: String,
    /// The most database connections the pool opens.
    pub max_connections: u32,
    /// The TCP port the server listens on.
    pub port: u16,
    /// The run mode; anything but `production` enables development logging.
    pub mode: String,
}

} // verus!
