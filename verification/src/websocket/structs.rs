//! Plain data carried by the websocket server.

use vstd::prelude::*;

pub use crate::shared::structs::{ClientMessage, JoinLeaveRequestData, MyAuthData};

verus! {

/// What the server tracks of one API key: remaining daily requests,
/// remaining connections, and the plan name.
#[derive(Debug)]
pub struct UserLimits {
    pub hits: i64,
    pub connections: i64,
    pub plan: String,
}

impl Clone for UserLimits {
    fn clone(&self) -> (r: Self)
        ensures
            r == *self,
    {
        UserLimits { hits: self.hits, connections: self.connections, plan: self.plan.clone() }
    }
}

/// A message taken from the queue, to be emitted to a group.
#[derive(Debug)]
pub struct Message {
    pub key: String,
    pub group_id: String,
    pub event_name: String,
    pub message: String,
}

/// Counts of consecutive empty and full polls of the message queue.
#[derive(Debug)]
pub struct PollingCounters {
    pub null_counter: i32,
    pub full_counter: i32,
}

impl PollingCounters {
    /// Zeroes both counters.
    pub fn reset(&mut self)
        ensures
            final(self).null_counter == 0,
            final(self).full_counter == 0,
    {
        self.null_counter = 0;
        self.full_counter = 0;
    }

    /// Counts one more empty poll.
    pub fn incre_null_counter(&mut self)
        requires
            old(self).null_counter < i32::MAX,
        ensures
            final(self).null_counter == old(self).null_counter + 1,
            final(self).full_counter == old(self).full_counter,
    {
        self.null_counter = self.null_counter + 1;
    }

    /// Counts one more full poll.
    pub fn incre_full_counter(&mut self)
        requires
            old(self).full_counter < i32::MAX,
        ensures
            final(self).full_counter == old(self).full_counter + 1,
            final(self).null_counter == old(self).null_counter,
    {
        self.full_counter = self.full_counter + 1;
    }

    /// Zeroes the empty-poll counter.
    pub fn reset_null_counter(&mut self)
        ensures
            final(self).null_counter == 0,
            final(self).full_counter == old(self).full_counter,
    {
        self.null_counter = 0;
    }

    /// Zeroes the full-poll counter.
    pub fn reset_full_counter(&mut self)
        ensures
            final(self).full_counter == 0,
            final(self).null_counter == old(self).null_counter,
    {
        self.full_counter = 0;
    }
}

} // verus!
