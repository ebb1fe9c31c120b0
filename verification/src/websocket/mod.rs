//! The earlier single-process websocket server, whose quotas are signed
//! counters that count down per connection as well as per request.

pub mod structs;
pub mod util;
pub mod map;
pub mod auth_clients;
pub mod handlers;
