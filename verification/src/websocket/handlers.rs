//! The decisions of the websocket server's socket event handlers. Rooms are
//! namespaced by key: a client joins `<key>_<group_id>`.

use vstd::prelude::*;
use crate::text::join_with_underscore;
use crate::websocket::structs::{ClientMessage, JoinLeaveRequestData, MyAuthData, UserLimits};
use crate::websocket::map::{
    ConnectionHash, decrement_user_hits, get_user_from_hash, remove_user_from_hash, spend_hit,
};

verus! {

/// The reply to an `INFO` request.
#[derive(Debug, Clone, Copy, PartialEq, Eq, Structural)]
pub enum InfoReply {
    /// The key is registered: its remaining connections and hits.
    Found { connections: i64, hits: i64 },
    /// The key is not registered (or the registry is uninitialised).
    Unknown,
}

/// What the server does with a `MESSAGE` event.
#[derive(Debug)]
pub enum MessageAction {
    /// The sender's key is not registered: nothing happens.
    Ignore,
    /// The key has no requests left: it is told so, disconnected and forgotten.
    LimitReached,
    /// The message is broadcast to the group's other members as the given event.
    Broadcast { room: String, event: String, message: String },
}

/// The room a key's group maps to: `<key>_<group_id>`.
pub open spec fn keyed_room(key: Seq<char>, group_id: Seq<char>) -> Seq<char> {
    key + seq!['_'] + group_id
}

/// Whether spending one request of `key` is defined.
pub open spec fn can_spend(hash: ConnectionHash, key: Seq<char>) -> bool {
    hash@ matches Some(m) ==> (m.contains_key(key) ==> m[key].hits > i64::MIN)
}

/// The registry after one request of `key` is spent.
pub open spec fn spent(
    before: Option<Map<Seq<char>, UserLimits>>,
    after: Option<Map<Seq<char>, UserLimits>>,
    key: Seq<char>,
) -> bool {
    match before {
        Some(m) => after == Some(if m.contains_key(key) { m.insert(key, spend_hit(m[key])) } else { m }),
        None => after is None,
    }
}

/// Reports the limits of the key in `message`.
pub fn info_handler(hash: &ConnectionHash, message: &MyAuthData) -> (r: InfoReply)
    requires
        hash.wf(),
    ensures
        (hash@ matches Some(m) && m.contains_key(message.token@)) ==> r == (InfoReply::Found {
            connections: hash@->0[message.token@].connections,
            hits: hash@->0[message.token@].hits,
        }),
        !(hash@ matches Some(m) && m.contains_key(message.token@)) ==> r is Unknown,
{
    match get_user_from_hash(hash, message.token.as_str()) {
        Some(user) => InfoReply::Found { connections: user.connections, hits: user.hits },
        None => InfoReply::Unknown,
    }
}

/// Spends one request of the key and returns the room to join.
pub fn join_handler(hash: &mut ConnectionHash, message: &JoinLeaveRequestData) -> (r: String)
    requires
        old(hash).wf(),
        can_spend(*old(hash), message.key@),
    ensures
        final(hash).wf(),
        spent(old(hash)@, final(hash)@, message.key@),
        r@ == keyed_room(message.key@, message.group_id@),
{
    decrement_user_hits(hash, message.key.as_str());
    join_with_underscore(message.key.as_str(), message.group_id.as_str())
}

/// Spends one request of the key and returns the room to leave.
pub fn leave_handler(hash: &mut ConnectionHash, room: &JoinLeaveRequestData) -> (r: String)
    requires
        old(hash).wf(),
        can_spend(*old(hash), room.key@),
    ensures
        final(hash).wf(),
        spent(old(hash)@, final(hash)@, room.key@),
        r@ == keyed_room(room.key@, room.group_id@),
{
    decrement_user_hits(hash, room.key.as_str());
    join_with_underscore(room.key.as_str(), room.group_id.as_str())
}

/// Decides a `MESSAGE` event: an unknown key is ignored; a key with no
/// requests left (zero or fewer) is forgotten; otherwise one request is
/// spent and the message goes to the group under its event name.
pub fn message_handler(hash: &mut ConnectionHash, message: &ClientMessage) -> (r: MessageAction)
    requires
        old(hash).wf(),
    ensures
        final(hash).wf(),
        match old(hash)@ {
            Some(m) => if !m.contains_key(message.key@) {
                r is Ignore && final(hash)@ == old(hash)@
            } else if m[message.key@].hits <= 0 {
                r is LimitReached && final(hash)@ == Some(m.remove(message.key@))
            } else {
                spent(old(hash)@, final(hash)@, message.key@) && match r {
                    MessageAction::Broadcast { room, event, message: body } => room@ == message.group_id@
                        && event@ == message.event_name@ && body@ == message.message@,
                    _ => false,
                }
            },
            None => r is Ignore && final(hash)@ is None,
        },
{
    match get_user_from_hash(hash, message.key.as_str()) {
        Some(user) => {
            if user.hits <= 0 {
                remove_user_from_hash(hash, message.key.as_str());
                return MessageAction::LimitReached;
            }
            decrement_user_hits(hash, message.key.as_str());
            MessageAction::Broadcast {
                room: message.group_id.clone(),
                event: message.event_name.clone(),
                message: message.message.clone(),
            }
        },
        None => MessageAction::Ignore,
    }
}

} // verus!
