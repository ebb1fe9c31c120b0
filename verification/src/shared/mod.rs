//! The shared (Hobby / Pro / StartUp) server.

pub mod util;
pub mod structs;
pub mod lru;
pub mod registry;
pub mod auth_clients;
pub mod handlers;
pub mod logging;
pub mod io_register;
pub mod env_vars;
