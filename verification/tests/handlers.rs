use ignition::shared::handlers::{InfoReply, MessageAction, info_handler, join_handler, leave_handler, message_handler};
use ignition::shared::registry::{SharedState, add_user_to_hash, get_user_from_hash};
use ignition::shared::structs::{ClientMessage, JoinLeaveRequestData, MyAuthData, UserLimits};
use ignition::websocket::handlers as ws;
use ignition::websocket::map::{
    ConnectionHash, add_user_to_hash as ws_add, get_user_from_hash as ws_get, init_map as ws_init,
};
use ignition::websocket::structs::UserLimits as WsUserLimits;

fn msg(key: &str) -> ClientMessage {
    ClientMessage {
        group_id: "room1".to_string(),
        event_name: "chat".to_string(),
        message: "hello".to_string(),
        key: key.to_string(),
    }
}

#[test]
fn info_reports_limits() {
    let mut s = SharedState::new();
    add_user_to_hash(&mut s, "k", UserLimits { hits: 4, connections: 2, plan: "Pro".to_string() });
    assert_eq!(info_handler(&s, &MyAuthData { token: "k".to_string() }), InfoReply::Found { connections: 2, hits: 4 });
    assert_eq!(info_handler(&s, &MyAuthData { token: "x".to_string() }), InfoReply::Unknown);
}

#[test]
fn join_and_leave_spend_a_request_each() {
    let mut s = SharedState::new();
    add_user_to_hash(&mut s, "k", UserLimits { hits: 4, connections: 2, plan: "Pro".to_string() });
    let req = JoinLeaveRequestData { key: "k".to_string(), group_id: "g1".to_string() };
    assert_eq!(join_handler(&mut s, &req), "g1");
    assert_eq!(leave_handler(&mut s, &req), "g1");
    assert_eq!(get_user_from_hash(&s, "k").unwrap().hits, 2);
}

#[test]
fn message_is_broadcast_and_spends_a_request() {
    let mut s = SharedState::new();
    add_user_to_hash(&mut s, "k", UserLimits { hits: 1, connections: 1, plan: "Pro".to_string() });
    match message_handler(&mut s, &msg("k")) {
        MessageAction::Broadcast { room, event, message } => {
            assert_eq!((room.as_str(), event.as_str(), message.as_str()), ("room1", "chat", "hello"));
        }
        other => panic!("unexpected {:?}", other),
    }
    assert_eq!(get_user_from_hash(&s, "k").unwrap().hits, 0);
    assert!(matches!(message_handler(&mut s, &msg("k")), MessageAction::LimitReached));
    assert!(get_user_from_hash(&s, "k").is_none());
    assert!(matches!(message_handler(&mut s, &msg("k")), MessageAction::Ignore));
}

#[test]
fn websocket_rooms_are_keyed() {
    let mut h = ConnectionHash::new();
    ws_init(&mut h);
    ws_add(&mut h, "k".to_string(), WsUserLimits { hits: 3, connections: 1, plan: "Pro".to_string() });
    let req = JoinLeaveRequestData { key: "k".to_string(), group_id: "g".to_string() };
    assert_eq!(ws::join_handler(&mut h, &req), "k_g");
    assert_eq!(ws::leave_handler(&mut h, &req), "k_g");
    assert_eq!(ws_get(&h, "k").unwrap().hits, 1);
    assert_eq!(
        ws::info_handler(&h, &MyAuthData { token: "k".to_string() }),
        ws::InfoReply::Found { connections: 1, hits: 1 }
    );
}

#[test]
fn websocket_message_with_no_hits_forgets_the_key() {
    let mut h = ConnectionHash::new();
    ws_init(&mut h);
    ws_add(&mut h, "k".to_string(), WsUserLimits { hits: 1, connections: 1, plan: "Pro".to_string() });
    assert!(matches!(ws::message_handler(&mut h, &msg("k")), ws::MessageAction::Broadcast { .. }));
    assert!(matches!(ws::message_handler(&mut h, &msg("k")), ws::MessageAction::LimitReached));
    assert!(ws_get(&h, "k").is_none());
    assert!(matches!(ws::message_handler(&mut h, &msg("k")), ws::MessageAction::Ignore));
}
