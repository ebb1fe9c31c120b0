use ignition::dedicated::{DedicatedAuth, authenticate_clients};
use ignition::shared::io_register::namespace_token;
use ignition::shared::logging::{format_log_line, format_panic_log_line, log_file_needs_truncation};
use ignition::shared::structs::MyAuthData;
use ignition::spark::{forward_decision, response_for_lowered_status};
use ignition::text::{join_with_underscore, str_eq};

#[test]
fn status_ok_in_any_case_is_forwarded() {
    for s in ["ok", "OK", "Ok", "oK"] {
        let r = forward_decision(s);
        assert_eq!(r.status, 200);
        assert_eq!(r.message, "Request forwarded to the WS-Server");
    }
}

#[test]
fn other_status_is_denied() {
    for s in ["no", "", "okay", " ok"] {
        let r = forward_decision(s);
        assert_eq!(r.status, 403);
        assert_eq!(r.message, "Request denied, daily limit reached");
    }
    assert_eq!(response_for_lowered_status("OK").status, 403);
    assert_eq!(response_for_lowered_status("ok").status, 200);
}

#[test]
fn dedicated_token_must_match() {
    let a = MyAuthData { token: "secret".to_string() };
    assert_eq!(authenticate_clients(&a, "secret"), DedicatedAuth::Connected);
    assert_eq!(authenticate_clients(&a, "Secret"), DedicatedAuth::Failed);
}

#[test]
fn log_lines() {
    assert_eq!(format_log_line("Jan 01 00:00:00", "INFO", "hi"), "[Jan 01 00:00:00] | [INFO]    :   hi");
    assert_eq!(format_panic_log_line("T", "boom"), "[T] | [ERROR]  :   boom");
}

#[test]
fn log_truncation_threshold() {
    assert!(!log_file_needs_truncation(10 * 1024 * 1024));
    assert!(log_file_needs_truncation(10 * 1024 * 1024 + 1));
    assert!(!log_file_needs_truncation(0));
}

#[test]
fn namespace_token_drops_the_slash() {
    assert_eq!(namespace_token("/abc123"), "abc123");
    assert_eq!(namespace_token("/"), "");
    assert_eq!(namespace_token("/ключ"), "ключ");
}

#[test]
fn text_helpers() {
    assert!(str_eq("a", "a"));
    assert!(!str_eq("a", "b"));
    assert_eq!(join_with_underscore("a", "b"), "a_b");
}
