use ignition::shared::auth_clients::{
    AuthOutcome, AuthStep, admit_looked_up_client, authenticate_clients, authenticate_test_clients,
    user_key_query,
};
use ignition::shared::registry::{SharedState, add_user_to_hash, get_user_from_hash};
use ignition::shared::structs::UserLimits;
use ignition::websocket::auth_clients as ws_auth;
use ignition::websocket::map::{ConnectionHash, get_user_from_hash as ws_get, init_map as ws_init};

fn user(hits: usize, connections: usize, plan: &str) -> UserLimits {
    UserLimits { hits, connections, plan: plan.to_string() }
}

#[test]
fn unknown_test_client_is_registered_on_hobby() {
    let mut s = SharedState::new();
    assert_eq!(authenticate_test_clients(&mut s, "fresh", 1), AuthOutcome::Registered);
    let u = get_user_from_hash(&s, "fresh").unwrap();
    assert_eq!((u.hits, u.connections, u.plan.as_str()), (100, 1, "Hobby"));
}

#[test]
fn test_client_over_connection_limit_is_refused() {
    let mut s = SharedState::new();
    add_user_to_hash(&mut s, "k", user(5, 1, "Hobby"));
    assert_eq!(authenticate_test_clients(&mut s, "k", 11), AuthOutcome::ConnectionLimitReached);
    assert_eq!(authenticate_test_clients(&mut s, "k", 10), AuthOutcome::Accepted);
    let u = get_user_from_hash(&s, "k").unwrap();
    assert_eq!((u.hits, u.connections), (4, 10));
}

#[test]
fn quota_runs_out_after_its_requests() {
    let mut s = SharedState::new();
    assert_eq!(authenticate_test_clients(&mut s, "k", 1), AuthOutcome::Registered);
    for _ in 0..100 {
        assert_eq!(authenticate_test_clients(&mut s, "k", 1), AuthOutcome::Accepted);
    }
    assert_eq!(authenticate_test_clients(&mut s, "k", 1), AuthOutcome::DailyLimitReached);
}

#[test]
fn test_client_without_hits_is_refused() {
    let mut s = SharedState::new();
    add_user_to_hash(&mut s, "k", user(0, 1, "Hobby"));
    assert_eq!(authenticate_test_clients(&mut s, "k", 1), AuthOutcome::DailyLimitReached);
}

#[test]
fn registered_client_is_decided_from_the_registry() {
    let mut s = SharedState::new();
    add_user_to_hash(&mut s, "k", user(5, 1, "Pro"));
    add_user_to_hash(&mut s, "other", user(5, 1, "Pro"));
    assert_eq!(authenticate_clients(&mut s, "k", 3), AuthStep::Decided(AuthOutcome::Accepted));
    let u = get_user_from_hash(&s, "k").unwrap();
    assert_eq!((u.hits, u.connections), (4, 3));
    assert_eq!(s.cache().keys_by_recency(), vec!["other", "k"]);
    assert_eq!(
        authenticate_clients(&mut s, "k", 501),
        AuthStep::Decided(AuthOutcome::ConnectionLimitReached)
    );
}

#[test]
fn unknown_client_needs_a_lookup() {
    let mut s = SharedState::new();
    assert_eq!(authenticate_clients(&mut s, "new", 1), AuthStep::LookUpPlan);
    assert!(get_user_from_hash(&s, "new").is_none());
}

#[test]
fn looked_up_client_is_registered_with_its_plan() {
    let mut s = SharedState::new();
    let r = admit_looked_up_client(&mut s, "new", Some("Pro".to_string()));
    assert_eq!(r, AuthOutcome::Registered);
    let u = get_user_from_hash(&s, "new").unwrap();
    assert_eq!((u.hits, u.connections, u.plan.as_str()), (10000, 1, "Pro"));
}

#[test]
fn client_missing_from_database_is_invalid() {
    let mut s = SharedState::new();
    assert_eq!(admit_looked_up_client(&mut s, "bad", None), AuthOutcome::InvalidKey);
    assert!(get_user_from_hash(&s, "bad").is_none());
}

#[test]
fn key_query_text() {
    let q = user_key_query();
    assert_eq!(q, " SELECT * FROM userkeystatus WHERE apiKey = $1; ");
    assert!(!q.contains("abc"));
}

#[test]
fn websocket_admission_spends_connections() {
    let mut h = ConnectionHash::new();
    ws_init(&mut h);
    assert_eq!(ws_auth::authenticate_clients(&mut h, "k"), AuthStep::LookUpPlan);
    let r = ws_auth::admit_looked_up_client(&mut h, "k".to_string(), Some("Hobby".to_string()));
    assert_eq!(r, AuthOutcome::Registered);
    let u = ws_get(&h, "k").unwrap();
    assert_eq!((u.hits, u.connections), (100, 9));
    assert_eq!(ws_auth::authenticate_clients(&mut h, "k"), AuthStep::Decided(AuthOutcome::Accepted));
    assert_eq!(ws_get(&h, "k").unwrap().connections, 8);
}

#[test]
fn websocket_admission_without_connections_is_refused() {
    let mut h = ConnectionHash::new();
    ws_init(&mut h);
    ws_auth::admit_looked_up_client(&mut h, "k".to_string(), Some("Unknown".to_string()));
    assert_eq!(ws_get(&h, "k").unwrap().connections, -1);
    assert_eq!(
        ws_auth::authenticate_clients(&mut h, "k"),
        AuthStep::Decided(AuthOutcome::ConnectionLimitReached)
    );
    assert_eq!(ws_auth::admit_looked_up_client(&mut h, "x".to_string(), None), AuthOutcome::InvalidKey);
}

#[test]
fn websocket_uninitialised_registry_registers_nothing() {
    let mut h = ConnectionHash::new();
    let r = ws_auth::admit_looked_up_client(&mut h, "k".to_string(), Some("Pro".to_string()));
    assert_eq!(r, AuthOutcome::Registered);
    assert!(ws_get(&h, "k").is_none());
}
