use cf_zt_cleaner::user::{CloudFlareUser, MissingEmailError, User};

fn user(id: Option<&str>, email: &str) -> User {
    User {
        id: id.map(String::from),
        email: email.into(),
        seat_uid: None,
        last_successful_login: None,
    }
}

#[test]
fn test_user_matching_case_insensitive() {
    let user1 = User {
        id: Some("123".into()),
        email: "Test@Example.com".into(),
        seat_uid: None,
        last_successful_login: None,
    };
    let user2 = User {
        id: None,
        email: "test@example.com".into(),
        seat_uid: None,
        last_successful_login: None,
    };

    assert!(user1.matches(&user2));
}

#[test]
fn test_user_in_permanent_list() {
    let cf_user = User {
        id: Some("123".into()),
        email: "keep@example.com".into(),
        seat_uid: None,
        last_successful_login: None,
    };

    let permanent = vec![
        User {
            id: None,
            email: "keep@example.com".into(),
            seat_uid: None,
            last_successful_login: None,
        },
        User {
            id: None,
            email: "also-keep@example.com".into(),
            seat_uid: None,
            last_successful_login: None,
        },
    ];

    assert!(cf_user.is_in_permanent_list(&permanent));
}

#[test]
fn matching_tells_different_addresses_apart() {
    assert!(!user(None, "a@example.com").matches(&user(None, "b@example.com")));
    assert!(!user(None, "a@example.com").matches(&user(None, "a@example.co")));
}

#[test]
fn matching_is_symmetric_and_ignores_ids() {
    let a = user(Some("1"), "MiXeD@Example.COM");
    let b = user(Some("2"), "mixed@example.com");
    assert!(a.matches(&b));
    assert!(b.matches(&a));
    assert!(a.matches(&a));
}

#[test]
fn matching_lowercases_beyond_ascii() {
    assert!(user(None, "ÉLODIE@example.com").matches(&user(None, "élodie@example.com")));
}

#[test]
fn user_not_in_permanent_list() {
    let permanent = vec![user(None, "keep@example.com")];
    assert!(!user(Some("9"), "gone@example.com").is_in_permanent_list(&permanent));
    assert!(!user(Some("9"), "keep@example.com").is_in_permanent_list(&[]));
}

#[test]
fn permanent_list_is_case_insensitive() {
    let permanent = vec![user(None, "other@example.com"), user(None, "KEEP@EXAMPLE.COM")];
    assert!(user(Some("1"), "keep@example.com").is_in_permanent_list(&permanent));
}

#[test]
fn from_email_has_no_id() {
    let u = User::from_email("x@example.com".to_string());
    assert_eq!(u.id, None);
    assert_eq!(u.email, "x@example.com");
    assert_eq!(u.seat_uid, None);
    assert_eq!(u.last_successful_login, None);
}

#[test]
fn active_seat_is_read_from_the_flag() {
    let mut cf = CloudFlareUser {
        id: "id-1".into(),
        email: Some("a@example.com".into()),
        access_seat: true,
        seat_uid: None,
        last_successful_login: None,
    };
    assert!(cf.has_active_seat());
    cf.access_seat = false;
    assert!(!cf.has_active_seat());
}

#[test]
fn conversion_keeps_fields_and_needs_email() {
    let cf = CloudFlareUser {
        id: "id-1".into(),
        email: Some("a@example.com".into()),
        access_seat: true,
        seat_uid: Some("seat-1".into()),
        last_successful_login: Some("2024-01-01T00:00:00Z".into()),
    };
    let u = User::try_from(cf).ok().unwrap();
    assert_eq!(u.id.as_deref(), Some("id-1"));
    assert_eq!(u.email, "a@example.com");
    assert_eq!(u.seat_uid.as_deref(), Some("seat-1"));
    assert_eq!(u.last_successful_login.as_deref(), Some("2024-01-01T00:00:00Z"));

    let no_email = CloudFlareUser {
        id: "id-2".into(),
        email: None,
        access_seat: true,
        seat_uid: None,
        last_successful_login: None,
    };
    match User::try_from(no_email) {
        Err(MissingEmailError { user_id }) => assert_eq!(user_id, "id-2"),
        Ok(_) => panic!("a user without e-mail converted"),
    }
}

#[test]
fn more_permanent_entries_keep_membership() {
    let u = user(Some("1"), "Keep@x.com");
    let mut permanent = vec![user(None, "keep@x.com")];
    assert!(u.is_in_permanent_list(&permanent));
    permanent.push(user(None, "other@x.com"));
    permanent.insert(0, user(None, "first@x.com"));
    assert!(u.is_in_permanent_list(&permanent));
}

#[test]
fn users_compare_and_hash_by_fields() {
    let a = user(Some("1"), "a@x.com");
    assert_eq!(a.clone(), a);
    assert_ne!(user(Some("1"), "A@x.com"), a);
    let set: std::collections::HashSet<User> = [a.clone(), a.clone(), user(None, "a@x.com")].into_iter().collect();
    assert_eq!(set.len(), 2);
}
