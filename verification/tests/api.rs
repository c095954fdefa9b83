use cf_zt_cleaner::api::{
    bearer_authorization, check_api_response, page_of_users, rate_limit_wait, seat_revocation_body, seats_url,
    users_page_url, ApiError, ApiResponse, ResultInfo, UserPages,
};
use cf_zt_cleaner::error::Error;
use cf_zt_cleaner::user::CloudFlareUser;

fn response(success: bool, errors: Vec<(i32, &str)>) -> ApiResponse<u8> {
    ApiResponse {
        success,
        errors: errors.into_iter().map(|(code, message)| ApiError { code, message: message.into() }).collect(),
        result: Some(7),
        result_info: None,
    }
}

fn cf(id: &str) -> CloudFlareUser {
    CloudFlareUser {
        id: id.into(),
        email: Some(format!("{id}@x.com")),
        access_seat: true,
        seat_uid: None,
        last_successful_login: None,
    }
}

fn info(total_count: u32) -> Option<ResultInfo> {
    Some(ResultInfo { count: 0, page: 1, per_page: 2, total_count })
}

#[test]
fn successful_answers_pass_unchanged() {
    let ok = check_api_response(response(true, vec![(1, "ignored")])).unwrap();
    assert_eq!(ok.result, Some(7));
}

#[test]
fn unsuccessful_answers_become_errors() {
    assert!(matches!(check_api_response(response(false, vec![(10015, "slow down")])), Err(Error::RateLimited)));
    match check_api_response(response(false, vec![(9103, "bad token"), (10015, "later")])) {
        Err(Error::CloudFlareApi { code, message }) => {
            assert_eq!(code, 9103);
            assert_eq!(message, "bad token");
        },
        other => panic!("unexpected: {other:?}"),
    }
    assert!(matches!(check_api_response(response(false, vec![])), Err(Error::CloudFlareUnsuccessful)));
}

#[test]
fn rate_limited_status_reads_retry_after() {
    assert_eq!(rate_limit_wait(200, Some("5")), None);
    assert_eq!(rate_limit_wait(500, None), None);
    assert_eq!(rate_limit_wait(429, Some("5")), Some(Some(5)));
    assert_eq!(rate_limit_wait(429, Some("+12")), Some(Some(12)));
    assert_eq!(rate_limit_wait(429, Some("007")), Some(Some(7)));
    assert_eq!(rate_limit_wait(429, Some("18446744073709551615")), Some(Some(u64::MAX)));
    assert_eq!(rate_limit_wait(429, Some("18446744073709551616")), Some(None));
    assert_eq!(rate_limit_wait(429, Some("-1")), Some(None));
    assert_eq!(rate_limit_wait(429, Some(" 5")), Some(None));
    assert_eq!(rate_limit_wait(429, Some("")), Some(None));
    assert_eq!(rate_limit_wait(429, Some("+")), Some(None));
    assert_eq!(rate_limit_wait(429, None), Some(None));
}

#[test]
fn request_texts() {
    assert_eq!(
        users_page_url("acc123", 1),
        "https://api.cloudflare.com/client/v4/accounts/acc123/access/users?page=1&per_page=1000"
    );
    assert_eq!(
        users_page_url("a", 4294967295),
        "https://api.cloudflare.com/client/v4/accounts/a/access/users?page=4294967295&per_page=1000"
    );
    assert_eq!(seats_url("acc123"), "https://api.cloudflare.com/client/v4/accounts/acc123/access/seats");
    assert_eq!(bearer_authorization("tok"), "Bearer tok");
    let body = seat_revocation_body("seat-9");
    assert_eq!(body.len(), 1);
    assert!(!body[0].access_seat && !body[0].gateway_seat);
    assert_eq!(body[0].seat_uid, "seat-9");
}

#[test]
fn page_contents_default_to_nothing() {
    let r = ApiResponse::<Vec<CloudFlareUser>> { success: true, errors: vec![], result: None, result_info: info(3) };
    let (users, info) = page_of_users(r);
    assert!(users.is_empty());
    assert_eq!(info.unwrap().total_count, 3);
}

#[test]
fn walk_collects_pages_until_total() {
    let mut pages = UserPages::new();
    assert_eq!(pages.page, 1);
    pages.absorb(vec![cf("a"), cf("b")], info(3));
    assert!(!pages.done);
    assert_eq!(pages.page, 2);
    pages.absorb(vec![cf("c")], info(3));
    assert!(pages.done);
    assert_eq!(pages.page, 2);
    let ids: Vec<&str> = pages.users.iter().map(|u| u.id.as_str()).collect();
    assert_eq!(ids, vec!["a", "b", "c"]);
}

#[test]
fn walk_stops_on_empty_page_or_missing_details() {
    let mut pages = UserPages::new();
    pages.absorb(vec![], info(10));
    assert!(pages.done);
    let mut pages = UserPages::new();
    assert!(!pages.continues_after(1, &None));
    pages.absorb(vec![cf("a")], None);
    assert!(pages.done);
    assert_eq!(pages.users.len(), 1);
}
