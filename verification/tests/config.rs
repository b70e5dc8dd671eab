use sprig::config::{api_address, log_level, LogLevel};
use sprig::text::same_text;

#[test]
fn each_level_has_its_name() {
    assert_eq!(log_level(Some("error")), LogLevel::Error);
    assert_eq!(log_level(Some("warn")), LogLevel::Warn);
    assert_eq!(log_level(Some("info")), LogLevel::Info);
    assert_eq!(log_level(Some("debug")), LogLevel::Debug);
    assert_eq!(log_level(Some("trace")), LogLevel::Trace);
}

#[test]
fn any_other_name_is_info() {
    assert_eq!(log_level(None), LogLevel::Info);
    assert_eq!(log_level(Some("")), LogLevel::Info);
    assert_eq!(log_level(Some("ERROR")), LogLevel::Info);
    assert_eq!(log_level(Some("warning")), LogLevel::Info);
    assert_eq!(log_level(Some(" trace")), LogLevel::Info);
}

#[test]
fn the_inlet_listens_where_it_is_told_or_on_port_3034() {
    assert_eq!(api_address(None), "0.0.0.0:3034");
    assert_eq!(api_address(Some("127.0.0.1:8080".to_string())), "127.0.0.1:8080");
    assert_eq!(api_address(Some(String::new())), "");
}

#[test]
fn texts_are_the_same_letter_for_letter() {
    assert!(same_text("", ""));
    assert!(same_text("Request", "Request"));
    assert!(!same_text("Request", "request"));
    assert!(!same_text("Request", "Request "));
    assert!(!same_text("é", "e"));
}
