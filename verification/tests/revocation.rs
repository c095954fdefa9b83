use cf_zt_cleaner::revocation::{
    parse_answer, revocation_outcome, revoke_seats, seat_to_revoke, Answer, InteractiveReview, ReviewMode, ReviewStep,
};
use cf_zt_cleaner::user::User;

fn user(email: &str, seat: Option<&str>) -> User {
    User { id: Some("id".into()), email: email.into(), seat_uid: seat.map(String::from), last_successful_login: None }
}

#[test]
fn seat_to_revoke_needs_a_seat_id() {
    assert_eq!(seat_to_revoke(&user("a@x.com", Some("s-1"))).unwrap(), "s-1");
    let (email, reason) = seat_to_revoke(&user("a@x.com", None)).unwrap_err();
    assert_eq!(email, "a@x.com");
    assert_eq!(reason, "missing seat_uid");
}

#[test]
fn revocation_outcome_names_the_user() {
    let u = user("a@x.com", Some("s"));
    assert!(revocation_outcome(&u, Ok(())).is_ok());
    assert_eq!(
        revocation_outcome(&u, Err("boom".into())).unwrap_err(),
        ("a@x.com".to_string(), "boom".to_string())
    );
}

#[test]
fn batch_fails_when_any_revocation_failed() {
    let ok: Result<(), (String, String)> = Ok(());
    let bad: Result<(), (String, String)> = Err(("a".into(), "x".into()));
    let counts = revoke_seats(&[ok.clone(), ok.clone()]).unwrap();
    assert_eq!((counts.revoked, counts.errors), (2, 0));
    assert_eq!(revoke_seats(&[ok.clone(), bad.clone(), bad.clone()]).unwrap_err(), 2);
    assert_eq!(revoke_seats(&[]).unwrap().revoked, 0);
}

#[test]
fn answers_are_read_loosely() {
    assert_eq!(parse_answer("y\n"), Answer::Revoke);
    assert_eq!(parse_answer("  YES "), Answer::Revoke);
    assert_eq!(parse_answer("a"), Answer::RevokeAll);
    assert_eq!(parse_answer("All\n"), Answer::RevokeAll);
    assert_eq!(parse_answer("q"), Answer::Quit);
    assert_eq!(parse_answer("QUIT"), Answer::Quit);
    assert_eq!(parse_answer("\n"), Answer::Keep);
    assert_eq!(parse_answer("n"), Answer::Keep);
    assert_eq!(parse_answer("yess"), Answer::Keep);
}

fn run(total: usize, answers: &[Answer], results: &[bool]) -> (InteractiveReview, Vec<ReviewStep>) {
    let mut review = InteractiveReview::new(total);
    let mut answers = answers.iter();
    let mut results = results.iter();
    let mut steps = Vec::new();
    loop {
        let step = review.next_step();
        steps.push(step);
        match step {
            ReviewStep::Ask(_) => review.record_answer(*answers.next().unwrap()),
            ReviewStep::Revoke(_) => review.record_revocation(*results.next().unwrap()),
            ReviewStep::Finished => break,
        }
    }
    (review, steps)
}

#[test]
fn interactive_review_counts_each_choice() {
    let (review, steps) = run(3, &[Answer::Revoke, Answer::Keep, Answer::Revoke], &[true, false]);
    assert_eq!(
        steps,
        vec![
            ReviewStep::Ask(0),
            ReviewStep::Revoke(0),
            ReviewStep::Ask(1),
            ReviewStep::Ask(2),
            ReviewStep::Revoke(2),
            ReviewStep::Finished
        ]
    );
    assert_eq!((review.revoked, review.skipped, review.errors), (1, 1, 1));
    assert_eq!(review.outcome().unwrap_err(), 1);
}

#[test]
fn interactive_all_revokes_the_rest() {
    let (review, steps) = run(4, &[Answer::Keep, Answer::RevokeAll], &[true, true, true]);
    assert_eq!(
        steps,
        vec![
            ReviewStep::Ask(0),
            ReviewStep::Ask(1),
            ReviewStep::Revoke(1),
            ReviewStep::Revoke(2),
            ReviewStep::Revoke(3),
            ReviewStep::Finished
        ]
    );
    let counts = review.outcome().unwrap();
    assert_eq!((counts.revoked, counts.skipped, counts.errors), (3, 1, 0));
}

#[test]
fn interactive_quit_stops_at_once() {
    let (review, steps) = run(5, &[Answer::Keep, Answer::Quit], &[]);
    assert_eq!(steps, vec![ReviewStep::Ask(0), ReviewStep::Ask(1), ReviewStep::Finished]);
    assert_eq!(review.mode, ReviewMode::Stopped);
    assert_eq!((review.revoked, review.skipped, review.errors), (0, 1, 0));
}

#[test]
fn interactive_review_of_nobody_is_finished() {
    let (review, steps) = run(0, &[], &[]);
    assert_eq!(steps, vec![ReviewStep::Finished]);
    assert_eq!(review.outcome().unwrap().revoked, 0);
}

#[test]
fn answers_trim_unicode_white_space_only() {
    assert_eq!(parse_answer("\u{3000}y\u{a0}"), Answer::Revoke);
    assert_eq!(parse_answer("\t\u{2028}quit\u{85}\r\n"), Answer::Quit);
    assert_eq!(parse_answer("\u{200b}y"), Answer::Keep);
}
