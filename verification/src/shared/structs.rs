//! Plain data carried by the shared server.

use vstd::prelude::*;

verus! {

/// What the server tracks of one API key: remaining daily requests, the
/// current number of concurrent connections, and the plan name.
#[derive(Debug)]
pub struct UserLimits {
    pub hits: usize,
    pub connections: usize,
    pub plan: String,
}

impl Clone for UserLimits {
    fn clone(&self) -> (r: Self)
        ensures
            r == *self,
    {
        UserLimits { hits: self.hits, connections: self.connections, plan: self.plan.clone() }
    }
}

/// A request to join or leave a group (room), made with an API key.
#[derive(Debug)]
pub struct JoinLeaveRequestData {
    pub key: String,
    pub group_id: String,
}

impl Clone for JoinLeaveRequestData {
    fn clone(&self) -> (r: Self)
        ensures
            r == *self,
    {
        JoinLeaveRequestData { key: self.key.clone(), group_id: self.group_id.clone() }
    }
}

/// The authentication payload a client sends: its API key.
#[derive(Debug)]
pub struct MyAuthData {
    pub token: String,
}

/// A message a client asks to broadcast to a group.
#[derive(Debug)]
pub struct ClientMessage {
    pub group_id: String,
    pub event_name: String,
    pub message: String,
    pub key: String,
}

impl Clone for ClientMessage {
    fn clone(&self) -> (r: Self)
        ensures
            r == *self,
    {
        ClientMessage {
            group_id: self.group_id.clone(),
            event_name: self.event_name.clone(),
            message: self.message.clone(),
            key: self.key.clone(),
        }
    }
}

/// The query of the `/upgrade` route: the key whose cached limits are dropped.
#[derive(Debug)]
pub struct UpgradeKey {
    pub key: String,
}

} // verus!
