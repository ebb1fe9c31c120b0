//! The decisions of the shared server's socket event handlers.

use vstd::prelude::*;
use crate::shared::structs::{ClientMessage, JoinLeaveRequestData, MyAuthData};
use crate::shared::lru::{touched, without_key};
use crate::shared::registry::{
    SharedState, decrement_user_hits, get_user_from_hash, remove_user_from_hash, spend_hit,
};

verus! {

/// The reply to an `INFO` request.
#[derive(Debug, Clone, Copy, PartialEq, Eq, Structural)]
pub enum InfoReply {
    /// The key is registered: its current connections and remaining hits.
    Found { connections: usize, hits: usize },
    /// The key is not registered.
    Unknown,
}

/// What the server does with a `MESSAGE` event.
#[derive(Debug)]
pub enum MessageAction {
    /// The sender's key is not registered: nothing happens.
    Ignore,
    /// The key has no requests left: it is told so, disconnected and forgotten.
    LimitReached,
    /// The message is broadcast to the group as the given event.
    Broadcast { room: String, event: String, message: String },
}

/// Whether spending one request of `key` is defined: an unknown key, or a
/// registered key with requests left.
pub open spec fn can_spend(state: SharedState, key: Seq<char>) -> bool {
    state.users().contains_key(key) ==> state.users()[key].hits > 0
}

/// The registry and cache after one request of `key` is spent.
pub open spec fn spent(old_state: SharedState, new_state: SharedState, key: Seq<char>) -> bool {
    if old_state.users().contains_key(key) {
        &&& new_state.users() == old_state.users().insert(key, spend_hit(old_state.users()[key]))
        &&& new_state.recency() == touched(old_state.recency(), key)
    } else {
        &&& new_state.users() == old_state.users()
        &&& new_state.recency() == old_state.recency()
    }
}

/// Reports the limits of the key in `message`.
pub fn info_handler(state: &SharedState, message: &MyAuthData) -> (r: InfoReply)
    ensures
        state.users().contains_key(message.token@) ==> r == (InfoReply::Found {
            connections: state.users()[message.token@].connections,
            hits: state.users()[message.token@].hits,
        }),
        !state.users().contains_key(message.token@) ==> r is Unknown,
{
    match get_user_from_hash(state, message.token.as_str()) {
        Some(user) => InfoReply::Found { connections: user.connections, hits: user.hits },
        None => InfoReply::Unknown,
    }
}

/// Spends one request of the key and returns the room to join: the group id.
pub fn join_handler(state: &mut SharedState, message: &JoinLeaveRequestData) -> (r: String)
    requires
        old(state).wf(),
        can_spend(*old(state), message.key@),
    ensures
        final(state).wf(),
        spent(*old(state), *final(state), message.key@),
        r@ == message.group_id@,
{
    decrement_user_hits(state, message.key.as_str(), None);
    message.group_id.clone()
}

/// Spends one request of the key and returns the room to leave: the group id.
pub fn leave_handler(state: &mut SharedState, room: &JoinLeaveRequestData) -> (r: String)
    requires
        old(state).wf(),
        can_spend(*old(state), room.key@),
    ensures
        final(state).wf(),
        spent(*old(state), *final(state), room.key@),
        r@ == room.group_id@,
{
    decrement_user_hits(state, room.key.as_str(), None);
    room.group_id.clone()
}

/// Decides a `MESSAGE` event: an unknown key is ignored; a key with no
/// requests left is forgotten; otherwise one request is spent and the
/// message is broadcast to its group under its event name.
pub fn message_handler(state: &mut SharedState, message: &ClientMessage) -> (r: MessageAction)
    requires
        old(state).wf(),
    ensures
        final(state).wf(),
        !old(state).users().contains_key(message.key@) ==> r is Ignore && final(state).users()
            == old(state).users() && final(state).recency() == old(state).recency(),
        old(state).users().contains_key(message.key@) && old(state).users()[message.key@].hits == 0
            ==> r is LimitReached && final(state).users() == old(state).users().remove(message.key@)
            && final(state).recency() == without_key(old(state).recency(), message.key@),
        old(state).users().contains_key(message.key@) && old(state).users()[message.key@].hits > 0
            ==> spent(*old(state), *final(state), message.key@) && match r {
                MessageAction::Broadcast { room, event, message: body } => room@ == message.group_id@
                    && event@ == message.event_name@ && body@ == message.message@,
                _ => false,
            },
{
    match get_user_from_hash(state, message.key.as_str()) {
        Some(user) => {
            if user.hits == 0 {
                remove_user_from_hash(state, message.key.as_str());
                return MessageAction::LimitReached;
            }
            decrement_user_hits(state, message.key.as_str(), None);
            MessageAction::Broadcast {
                room: message.group_id.clone(),
                event: message.event_name.clone(),
                message: message.message.clone(),
            }
        },
        None => MessageAction::Ignore,
    }
}

} // verus!
