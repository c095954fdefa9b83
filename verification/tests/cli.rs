use cf_zt_cleaner::cli::{
    init_config_refused, is_confirmation, log_level, plural_suffix, listing_lines, user_summary, LogLevel,
};
use cf_zt_cleaner::user::User;

#[test]
fn log_levels() {
    assert_eq!(log_level(0, 0), LogLevel::Info);
    assert_eq!(log_level(1, 0), LogLevel::Debug);
    assert_eq!(log_level(2, 0), LogLevel::Trace);
    assert_eq!(log_level(7, 0), LogLevel::Trace);
    assert_eq!(log_level(0, 1), LogLevel::Warn);
    assert_eq!(log_level(0, 2), LogLevel::Error);
    assert_eq!(log_level(0, 9), LogLevel::Error);
    assert_eq!(log_level(1, 1), LogLevel::Debug);
}

#[test]
fn plurals() {
    assert_eq!(plural_suffix(1), "");
    assert_eq!(plural_suffix(0), "s");
    assert_eq!(plural_suffix(2), "s");
}

#[test]
fn confirmations() {
    assert!(is_confirmation("y\n"));
    assert!(is_confirmation(" Yes "));
    assert!(!is_confirmation("\n"));
    assert!(!is_confirmation("no"));
    assert!(!is_confirmation("a"));
}

#[test]
fn init_config_overwrites_only_when_forced() {
    assert!(init_config_refused(true, false));
    assert!(!init_config_refused(true, true));
    assert!(!init_config_refused(false, false));
    assert!(!init_config_refused(false, true));
}

#[test]
fn listing_lines_show_placeholders() {
    let with = User {
        id: Some("42".into()),
        email: "a@x.com".into(),
        seat_uid: None,
        last_successful_login: Some("2024-01-01T00:00:00Z".into()),
    };
    let without = User { id: None, email: "b@x.com".into(), seat_uid: None, last_successful_login: None };
    assert_eq!(user_summary(&with), "  - a@x.com (42) last_successful_login=2024-01-01T00:00:00Z");
    assert_eq!(user_summary(&without), "  - b@x.com (no-id) last_successful_login=never/unknown");
    assert_eq!(listing_lines(&[with, without]).len(), 2);
    assert_eq!(without_id_label(), "no-id");
}

fn without_id_label() -> String {
    User { id: None, email: "c".into(), seat_uid: None, last_successful_login: None }.id_label().to_string()
}
