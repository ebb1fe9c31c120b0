use ignition::shared::util::{
    get_connection_limit_from_plan_name, get_request_limit_from_plan_name, is_development_mode,
};
use ignition::websocket::util as ws_util;

#[test]
fn hobby_plan_matches_subscription_table() {
    assert_eq!(get_request_limit_from_plan_name("Hobby"), 100);
    assert_eq!(get_connection_limit_from_plan_name("Hobby"), 10);
}

#[test]
fn pro_plan_matches_subscription_table() {
    assert_eq!(get_request_limit_from_plan_name("Pro"), 10000);
    assert_eq!(get_connection_limit_from_plan_name("Pro"), 500);
}

#[test]
fn startup_plan_limits() {
    assert_eq!(get_request_limit_from_plan_name("StartUp"), 5000000);
    assert_eq!(get_connection_limit_from_plan_name("StartUp"), 5000);
}

#[test]
fn unknown_plans_get_nothing() {
    assert_eq!(get_request_limit_from_plan_name("hobby"), 0);
    assert_eq!(get_connection_limit_from_plan_name(""), 0);
    assert_eq!(get_request_limit_from_plan_name("Enterprise"), 0);
}

#[test]
fn websocket_plan_limits() {
    assert_eq!(ws_util::get_request_limit_from_plan_name("Hobby"), 100);
    assert_eq!(ws_util::get_request_limit_from_plan_name("Pro"), 10000);
    assert_eq!(ws_util::get_request_limit_from_plan_name("StartUp"), 5000000);
    assert_eq!(ws_util::get_connection_limit_from_plan_name("Hobby"), 10);
    assert_eq!(ws_util::get_connection_limit_from_plan_name("Pro"), 500);
    assert_eq!(ws_util::get_connection_limit_from_plan_name("StartUp"), 2000);
    assert_eq!(ws_util::get_connection_limit_from_plan_name("Free"), 0);
}

#[test]
fn development_mode_is_anything_but_production() {
    assert!(!is_development_mode("production"));
    assert!(is_development_mode("development"));
    assert!(is_development_mode(""));
    assert!(is_development_mode("Production"));
}
