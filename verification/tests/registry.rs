use ignition::shared::registry::{
    SharedState, add_user_to_hash, decrement_user_hits, get_user_from_hash, get_user_hash_map,
    init_map, remove_user_from_hash, reset_all_users_values,
};
use ignition::shared::structs::UserLimits;

fn user(hits: usize, connections: usize, plan: &str) -> UserLimits {
    UserLimits { hits, connections, plan: plan.to_string() }
}

#[test]
fn read_after_add() {
    let mut s = SharedState::new();
    let n = add_user_to_hash(&mut s, "key1", user(7, 2, "Pro"));
    assert_eq!(n, 1);
    let u = get_user_from_hash(&s, "key1").unwrap();
    assert_eq!((u.hits, u.connections, u.plan.as_str()), (7, 2, "Pro"));
    assert!(get_user_from_hash(&s, "key2").is_none());
    assert_eq!(s.cache().keys_by_recency(), vec!["key1"]);
}

#[test]
fn add_replaces_existing_limits() {
    let mut s = SharedState::new();
    add_user_to_hash(&mut s, "k", user(7, 2, "Pro"));
    let n = add_user_to_hash(&mut s, "k", user(1, 1, "Hobby"));
    assert_eq!(n, 1);
    assert_eq!(get_user_from_hash(&s, "k").unwrap().hits, 1);
}

#[test]
fn read_after_remove() {
    let mut s = SharedState::new();
    add_user_to_hash(&mut s, "a", user(7, 2, "Pro"));
    add_user_to_hash(&mut s, "b", user(3, 1, "Hobby"));
    remove_user_from_hash(&mut s, "a");
    assert!(get_user_from_hash(&s, "a").is_none());
    assert_eq!(get_user_from_hash(&s, "b").unwrap().hits, 3);
    assert_eq!(s.cache().keys_by_recency(), vec!["b"]);
}

#[test]
fn decrement_spends_one_stored_hit() {
    let mut s = SharedState::new();
    add_user_to_hash(&mut s, "a", user(7, 2, "Pro"));
    add_user_to_hash(&mut s, "b", user(3, 1, "Hobby"));
    decrement_user_hits(&mut s, "a", None);
    assert_eq!(get_user_from_hash(&s, "a").unwrap().hits, 6);
    assert_eq!(s.cache().keys_by_recency(), vec!["b", "a"]);
    decrement_user_hits(&mut s, "missing", None);
    assert_eq!(get_user_from_hash(&s, "b").unwrap().hits, 3);
}

#[test]
fn decrement_with_fetched_limits_stores_them_less_one() {
    let mut s = SharedState::new();
    add_user_to_hash(&mut s, "a", user(7, 2, "Pro"));
    add_user_to_hash(&mut s, "b", user(3, 1, "Hobby"));
    let mut fetched = get_user_from_hash(&s, "a").unwrap();
    fetched.connections = 4;
    decrement_user_hits(&mut s, "a", Some(fetched));
    let a = get_user_from_hash(&s, "a").unwrap();
    assert_eq!((a.hits, a.connections), (6, 4));
    assert_eq!(s.cache().keys_by_recency(), vec!["b", "a"]);
}

#[test]
fn decrement_with_fetched_limits_leaves_an_unknown_key_unregistered() {
    let mut s = SharedState::new();
    add_user_to_hash(&mut s, "a", user(7, 2, "Pro"));
    decrement_user_hits(&mut s, "gone", Some(user(5, 1, "Hobby")));
    assert!(get_user_from_hash(&s, "gone").is_none());
    assert_eq!(get_user_hash_map(&s).len(), 1);
    assert_eq!(get_user_from_hash(&s, "a").unwrap().hits, 7);
    assert_eq!(s.cache().keys_by_recency(), vec!["a"]);
}

#[test]
fn reset_restores_each_plan_quota() {
    let mut s = SharedState::new();
    add_user_to_hash(&mut s, "a", user(0, 9, "Pro"));
    add_user_to_hash(&mut s, "b", user(3, 1, "Hobby"));
    add_user_to_hash(&mut s, "c", user(3, 1, "Mystery"));
    reset_all_users_values(&mut s);
    let a = get_user_from_hash(&s, "a").unwrap();
    assert_eq!((a.hits, a.connections), (10000, 0));
    let b = get_user_from_hash(&s, "b").unwrap();
    assert_eq!((b.hits, b.connections), (100, 0));
    let c = get_user_from_hash(&s, "c").unwrap();
    assert_eq!((c.hits, c.connections, c.plan.as_str()), (0, 0, "Mystery"));
    assert_eq!(get_user_hash_map(&s).len(), 3);
}

#[test]
fn hash_map_snapshot_lists_every_user_once() {
    let mut s = SharedState::new();
    add_user_to_hash(&mut s, "a", user(1, 1, "Pro"));
    add_user_to_hash(&mut s, "b", user(2, 1, "Hobby"));
    let mut entries: Vec<(String, usize)> =
        get_user_hash_map(&s).into_iter().map(|(k, u)| (k, u.hits)).collect();
    entries.sort();
    assert_eq!(entries, vec![("a".to_string(), 1), ("b".to_string(), 2)]);
}

#[test]
fn init_map_empties_everything() {
    let mut s = SharedState::new();
    add_user_to_hash(&mut s, "a", user(1, 1, "Pro"));
    init_map(&mut s);
    assert!(get_user_from_hash(&s, "a").is_none());
    assert!(get_user_hash_map(&s).is_empty());
    assert_eq!(s.cache().len(), 0);
}

#[test]
fn cache_holds_only_registered_keys() {
    let mut s = SharedState::new();
    for i in 0..130 {
        add_user_to_hash(&mut s, &format!("k{}", i), user(5, 0, "Hobby"));
        if i % 3 == 0 {
            remove_user_from_hash(&mut s, &format!("k{}", i / 2));
        }
        decrement_user_hits(&mut s, &format!("k{}", i / 3), None);
        for k in s.cache().keys_by_recency() {
            assert!(get_user_from_hash(&s, &k).is_some());
        }
    }
    reset_all_users_values(&mut s);
    for k in s.cache().keys_by_recency() {
        assert!(get_user_from_hash(&s, &k).is_some());
    }
}
