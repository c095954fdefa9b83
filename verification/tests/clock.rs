use cf_zt_cleaner::clock::{
    duration_fits_time_delta, parse_duration, retain_older_than, retain_older_than_now, DurationError, TimeSpan,
};
use cf_zt_cleaner::user::User;

fn seconds(s: &str) -> i64 {
    assert!(duration_fits_time_delta(s));
    parse_duration(s).unwrap().seconds
}

fn error(s: &str) -> DurationError {
    assert!(duration_fits_time_delta(s));
    parse_duration(s).unwrap_err()
}

fn user(email: &str, login: Option<&str>) -> User {
    User { id: None, email: email.into(), seat_uid: None, last_successful_login: login.map(String::from) }
}

#[test]
fn days_and_hours() {
    assert_eq!(seconds("2d"), 172_800);
    assert_eq!(seconds("48h"), 172_800);
    assert_eq!(seconds("2d"), seconds("48h"));
    assert_eq!(seconds("0h"), 0);
    assert_eq!(seconds("+3h"), 10_800);
    assert_eq!(seconds("-1d"), -86_400);
}

#[test]
fn malformed_durations() {
    assert_eq!(error("2"), DurationError::InvalidUnit);
    assert_eq!(error("2w"), DurationError::InvalidUnit);
    assert_eq!(error(""), DurationError::InvalidUnit);
    assert_eq!(error("d"), DurationError::InvalidNumber);
    assert_eq!(error("xd"), DurationError::InvalidNumber);
    assert_eq!(error("2 d"), DurationError::InvalidNumber);
    assert_eq!(error("2dh"), DurationError::InvalidNumber);
    assert_eq!(error("99999999999999999999d"), DurationError::InvalidNumber);
}

#[test]
fn durations_beyond_time_delta() {
    assert!(duration_fits_time_delta("106751991167d"));
    assert_eq!(seconds("106751991167d"), 106_751_991_167 * 86_400);
    assert!(!duration_fits_time_delta("106751991168d"));
    assert!(!duration_fits_time_delta("-2562047788016h"));
    assert!(duration_fits_time_delta("-2562047788015h"));
}

#[test]
fn login_time_stamps_are_read_with_offsets() {
    let hour = TimeSpan { seconds: 3_600 };
    let at = 1_704_067_200 + 3_601;
    assert!(user("a", Some("2024-01-01T00:00:00Z")).last_login_older_than(&hour, at));
    assert!(user("a", Some("2024-01-01T01:00:00+01:00")).last_login_older_than(&hour, at));
    assert!(!user("a", Some("2024-01-01T00:00:01Z")).last_login_older_than(&hour, at));
    assert!(!user("a", Some("2024-01-01T00:00:00-00:01")).last_login_older_than(&hour, at));
    assert!(user("a", Some("1970-01-01T00:00:00Z")).last_login_older_than(&TimeSpan { seconds: 0 }, 1));
    assert!(!user("a", Some("1970-01-01T00:00:00Z")).last_login_older_than(&TimeSpan { seconds: 1 }, 1));
}

#[test]
fn older_than_now_uses_the_clock() {
    let day = TimeSpan { seconds: 86_400 };
    let kept = retain_older_than_now(
        vec![user("future", Some("2999-01-01T00:00:00Z")), user("past", Some("2000-01-01T00:00:00Z"))],
        &day,
    );
    let names: Vec<&str> = kept.iter().map(|u| u.email.as_str()).collect();
    assert_eq!(names, vec!["past"]);
}

#[test]
fn older_than_keeps_old_and_unknown_logins() {
    let now = 1_704_067_200 + 3 * 86_400;
    let two_days = TimeSpan { seconds: 2 * 86_400 };
    assert!(user("a", None).last_login_older_than(&two_days, now));
    assert!(user("a", Some("not a time")).last_login_older_than(&two_days, now));
    assert!(user("a", Some("2024-01-01T00:00:00Z")).last_login_older_than(&two_days, now));
    assert!(!user("a", Some("2024-01-03T00:00:00Z")).last_login_older_than(&two_days, now));
    assert!(!user("a", Some("2024-01-02T00:00:00Z")).last_login_older_than(&two_days, now));
    let kept = retain_older_than(
        vec![
            user("never", None),
            user("recent", Some("2024-01-03T12:00:00Z")),
            user("old", Some("2023-06-01T00:00:00Z")),
        ],
        &two_days,
        now,
    );
    let names: Vec<&str> = kept.iter().map(|u| u.email.as_str()).collect();
    assert_eq!(names, vec!["never", "old"]);
}
