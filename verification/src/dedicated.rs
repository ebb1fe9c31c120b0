//! The dedicated (enterprise) server: no quotas, one shared validation token.

use vstd::prelude::*;
use crate::text::str_eq;
use crate::shared::structs::MyAuthData;

verus! {

/// How a dedicated-server connection attempt ended.
#[derive(Debug, Clone, Copy, PartialEq, Eq, Structural)]
pub enum DedicatedAuth {
    /// The token matches: the client is told it is connected.
    Connected,
    /// The token differs: the client is told so and disconnected.
    Failed,
}

/// Checks the client's token against the server's validation token.
pub fn authenticate_clients(auth: &MyAuthData, validation_token: &str) -> (r: DedicatedAuth)
    ensures
        r is Connected <==> auth.token@ == validation_token@,
{
    if !str_eq(auth.token.as_str(), validation_token) {
        DedicatedAuth::Failed
    } else {
        DedicatedAuth::Connected
    }
}

} // verus!
