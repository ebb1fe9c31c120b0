use ignition::sdk::Ignition;
use ignition::shared::handlers::join_handler;
use ignition::shared::registry::{SharedState, add_user_to_hash, get_user_from_hash};
use ignition::shared::structs::UserLimits;

#[test]
fn endpoint_joins_url_and_key() {
    let c = Ignition::new("wss://host", "KEY", None);
    assert_eq!(c.endpoint(), "wss://host/KEY");
}

#[test]
fn subscribe_and_unsubscribe_name_the_same_room() {
    let c = Ignition::new("wss://host", "KEY", None);
    let j = c.subscribe("news");
    let l = c.unsubscribe("news");
    assert_eq!((j.key.as_str(), j.group_id.as_str()), ("KEY", "KEY_news"));
    assert_eq!((l.key.as_str(), l.group_id.as_str()), ("KEY", "KEY_news"));
}

#[test]
fn encryption_round_trips() {
    let c = Ignition::new("wss://host", "KEY", Some("Very secret key.".to_string()));
    let plain = b"Example plaintext.";
    let enc = c.encrypt(plain);
    assert_ne!(enc.as_slice(), plain.as_slice());
    assert_eq!(enc.len(), 32);
    assert_eq!(c.decrypt(&enc), plain.to_vec());
    assert_eq!(c.try_decrypt(&enc), Some(plain.to_vec()));
}

#[test]
fn decryption_of_garbage_fails() {
    let c = Ignition::new("wss://host", "KEY", Some("0123456789abcdef".to_string()));
    assert_eq!(c.try_decrypt(b"short"), None);
    assert_eq!(c.try_decrypt(b""), None);
    let other = Ignition::new("wss://host", "KEY", Some("fedcba9876543210".to_string()));
    let enc = other.encrypt(b"hello");
    assert_ne!(c.try_decrypt(&enc), Some(b"hello".to_vec()));
}

#[test]
fn no_key_means_no_decryption() {
    let c = Ignition::new("wss://host", "KEY", None);
    assert_eq!(c.try_decrypt(&[0u8; 16]), None);
}

#[test]
fn emit_encrypts_the_body() {
    let c = Ignition::new("wss://host", "KEY", Some("0123456789abcdef".to_string()));
    let p = c.emit("chat", "room", "hi there");
    assert_eq!((p.event.as_str(), p.room.as_str()), ("chat", "room"));
    assert_eq!(p.message.len(), 16);
    assert_eq!(c.decrypt(&p.message), b"hi there".to_vec());
}

#[test]
fn subscription_joins_the_keyed_room_on_the_shared_server() {
    let c = Ignition::new("wss://host", "KEY", None);
    let mut s = SharedState::new();
    add_user_to_hash(&mut s, "KEY", UserLimits { hits: 2, connections: 1, plan: "Hobby".to_string() });
    let room = join_handler(&mut s, &c.subscribe("news"));
    assert_eq!(room, "KEY_news");
    assert_eq!(get_user_from_hash(&s, "KEY").unwrap().hits, 1);
}
