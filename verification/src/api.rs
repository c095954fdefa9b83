//! The CloudFlare Access API as the cleaner uses it: the requests it builds,
//! how it judges the answers, and how it walks the pages of the user list.

use vstd::prelude::*;
use crate::error::Error;
use crate::text::{decimal_text, parse_u64_text, parse_u64_chars, chars_of, push_decimal, lemma_decimal_reads_back,
    all_digits};
use crate::user::CloudFlareUser;

verus! {

pub const CLOUDFLARE_API_BASE: &'static str = "https://api.cloudflare.com/client/v4";

/// Users asked for per page of the user list.
pub const DEFAULT_PER_PAGE: u32 = 1000;

/// HTTP status of a rate-limited request.
pub const TOO_MANY_REQUESTS: u16 = 429;

/// CloudFlare error code of a rate-limited request.
pub const RATE_LIMIT_ERROR_CODE: i32 = 10015;

/// The envelope of every CloudFlare API answer.
#[derive(Debug)]
pub struct ApiResponse<T> {
    pub success: bool,
    pub errors: Vec<ApiError>,
    pub result: Option<T>,
    pub result_info: Option<ResultInfo>,
}

/// One error reported by the API.
#[derive(Debug)]
pub struct ApiError {
    pub code: i32,
    pub message: String,
}

/// Pagination details of a listing.
#[derive(Debug, Clone, Copy)]
pub struct ResultInfo {
    pub count: u32,
    pub page: u32,
    pub per_page: u32,
    pub total_count: u32,
}

/// Request body entry of the seat management API.
#[derive(Debug)]
pub struct SeatUpdate {
    pub access_seat: bool,
    pub gateway_seat: bool,
    pub seat_uid: String,
}

/// Answer entry of the seat management API.
#[derive(Debug)]
pub struct SeatUpdateResult {
    pub access_seat: bool,
    pub gateway_seat: bool,
    pub seat_uid: String,
}

/// How an answer that arrived with a non-rate-limited status is judged: a
/// successful one is kept; an unsuccessful one becomes the error of its
/// first reported error (rate limiting for code 10015), or a bare
/// "unsuccessful" when it reports none.
pub open spec fn judged_response<T>(response: ApiResponse<T>) -> Result<ApiResponse<T>, Error> {
    if response.success {
        Ok(response)
    } else if response.errors@.len() > 0 {
        let first = response.errors@[0];
        if first.code == RATE_LIMIT_ERROR_CODE {
            Err(Error::RateLimited)
        } else {
            Err(Error::CloudFlareApi { code: first.code, message: first.message })
        }
    } else {
        Err(Error::CloudFlareUnsuccessful)
    }
}

/// What judging an answer means: a successful answer is kept as it is,
/// whatever errors it lists; an unsuccessful one is always an error, the
/// rate-limit error exactly when its first error has code 10015, the
/// CloudFlare error carrying the first error's code and message when that
/// code is another, and the bare "unsuccessful" error when it lists none.
pub proof fn lemma_judgement_meaning<T>(response: ApiResponse<T>)
    ensures
        response.success ==> judged_response(response) == Ok::<ApiResponse<T>, Error>(response),
        !response.success ==> judged_response(response) is Err,
        (!response.success && response.errors@.len() > 0 && response.errors@[0].code == 10015) ==> (judged_response(
            response,
        ) matches Err(Error::RateLimited)),
        (!response.success && response.errors@.len() > 0 && response.errors@[0].code != 10015) ==> (judged_response(
            response,
        ) matches Err(Error::CloudFlareApi { code, message }) && code == response.errors@[0].code && message
            == response.errors@[0].message),
        (!response.success && response.errors@.len() == 0) ==> (judged_response(response) matches Err(
            Error::CloudFlareUnsuccessful,
        )),
{
}

/// What the end of the walk means: it goes on only after a non-empty page
/// that came with pagination details while fewer users than the reported
/// total have been collected.
pub proof fn lemma_walk_meaning(collected: int, page_len: int, info: Option<ResultInfo>)
    requires
        page_len >= 0,
    ensures
        walk_continues(collected, page_len, info) <==> (info matches Some(i) && page_len > 0 && collected
            < i.total_count),
{
}

/// Judges a parsed API answer.
pub fn check_api_response<T>(response: ApiResponse<T>) -> (r: Result<ApiResponse<T>, Error>)
    ensures
        r == judged_response(response),
{
    if !response.success {
        if response.errors.len() > 0 {
            let first = &response.errors[0];
            if first.code == RATE_LIMIT_ERROR_CODE {
                return Err(Error::RateLimited);
            }
            return Err(Error::CloudFlareApi { code: first.code, message: first.message.clone() });
        }
        return Err(Error::CloudFlareUnsuccessful);
    }
    Ok(response)
}

/// For an answer with the given HTTP status and `Retry-After` header:
/// `None` when it is not rate limited; otherwise the number of seconds to
/// wait before failing with `RateLimited`, when the header holds one.
pub fn rate_limit_wait(status: u16, retry_after: Option<&str>) -> (r: Option<Option<u64>>)
    ensures
        status != TOO_MANY_REQUESTS ==> r is None,
        status == TOO_MANY_REQUESTS ==> r == Some(
            match retry_after {
                Some(h) => parse_u64_text(h@),
                None => None::<u64>,
            },
        ),
{
    if status != TOO_MANY_REQUESTS {
        return None;
    }
    match retry_after {
        Some(h) => {
            let chars = chars_of(h);
            proof {
                assert(chars@.take(chars@.len() as int) == chars@);
            }
            Some(parse_u64_chars(&chars, chars.len()))
        },
        None => Some(None),
    }
}

/// The URL of one page of the Access user list of an account.
pub open spec fn users_page_url_text(account_id: Seq<char>, page: u32) -> Seq<char> {
    CLOUDFLARE_API_BASE@ + "/accounts/"@ + account_id + "/access/users?page="@ + decimal_text(page as nat)
        + "&per_page="@ + decimal_text(DEFAULT_PER_PAGE as nat)
}

/// Builds the URL of one page of the Access user list of an account.
pub fn users_page_url(account_id: &str, page: u32) -> (r: String)
    ensures
        r@ == users_page_url_text(account_id@, page),
        r@ == CLOUDFLARE_API_BASE@ + "/accounts/"@ + account_id@ + "/access/users?page="@ + decimal_text(page as nat)
            + "&per_page="@ + decimal_text(1000),
{
    let mut url = String::from_str(CLOUDFLARE_API_BASE);
    url.append("/accounts/");
    url.append(account_id);
    url.append("/access/users?page=");
    push_decimal(&mut url, page as u64);
    url.append("&per_page=");
    push_decimal(&mut url, DEFAULT_PER_PAGE as u64);
    url
}

/// The page asked for is the page named in the URL: the URL of a page is
/// the account's user list URL, then digits that read back as exactly that
/// page number, then `&per_page=1000`; so different pages (or accounts)
/// give different URLs.
pub proof fn lemma_users_page_url_meaning(account_id: Seq<char>, page: u32, other_account: Seq<char>, other_page: u32)
    ensures
        exists|digits: Seq<char>|
            #![trigger parse_u64_text(digits)]
            users_page_url_text(account_id, page) == CLOUDFLARE_API_BASE@ + "/accounts/"@ + account_id
                + "/access/users?page="@ + digits + "&per_page=1000"@ && digits.len() > 0 && all_digits(digits)
                && parse_u64_text(digits) == Some(page as u64),
        users_page_url_text(account_id, page) == users_page_url_text(other_account, other_page) ==> (page == other_page
            && account_id == other_account),
{
    reveal_strlit("&per_page=1000");
    reveal_strlit("&per_page=");
    reveal_strlit("/access/users?page=");
    reveal_with_fuel(decimal_text, 5);
    assert(decimal_text(1000) == seq!['1', '0', '0', '0']);
    assert("&per_page="@ + decimal_text(1000) == "&per_page=1000"@);
    lemma_decimal_reads_back(page as nat);
    let digits = decimal_text(page as nat);
    assert(parse_u64_text(digits) == Some(page as u64));
    let head = CLOUDFLARE_API_BASE@ + "/accounts/"@;
    let tail = "&per_page="@ + decimal_text(1000);
    assert(users_page_url_text(account_id, page) == head + account_id + "/access/users?page="@ + digits
        + "&per_page=1000"@);
    if users_page_url_text(account_id, page) == users_page_url_text(other_account, other_page) {
        lemma_decimal_reads_back(other_page as nat);
        let od = decimal_text(other_page as nat);
        let x = head + account_id + "/access/users?page="@ + digits + tail;
        let y = head + other_account + "/access/users?page="@ + od + tail;
        assert(x == users_page_url_text(account_id, page));
        assert(y == users_page_url_text(other_account, other_page));
        // drop the common tail
        let xs = x.subrange(0, x.len() - tail.len());
        let ys = y.subrange(0, y.len() - tail.len());
        assert(xs == head + account_id + "/access/users?page="@ + digits);
        assert(ys == head + other_account + "/access/users?page="@ + od);
        lemma_split_digits(head + account_id + "/access/users?page="@, digits, head + other_account
            + "/access/users?page="@, od);
        assert(digits == od);
        assert(page as nat == other_page as nat) by {
            lemma_decimal_reads_back(page as nat);
            lemma_decimal_reads_back(other_page as nat);
        }
        let p1 = head + account_id + "/access/users?page="@;
        let p2 = head + other_account + "/access/users?page="@;
        assert(p1 == xs.subrange(0, xs.len() - digits.len()));
        assert(p2 == ys.subrange(0, ys.len() - od.len()));
        assert(p1 == p2);
        let q = "/access/users?page="@;
        assert(head + account_id == p1.subrange(0, p1.len() - q.len()));
        assert(head + other_account == p2.subrange(0, p2.len() - q.len()));
        assert(account_id == (head + account_id).subrange(head.len() as int, (head + account_id).len() as int));
        assert(other_account == (head + other_account).subrange(head.len() as int, (head + other_account).len() as int));
    }
}

/// When two texts that end in '=' are followed by digits and the results
/// are equal, the digit runs are equal.
proof fn lemma_split_digits(p1: Seq<char>, d1: Seq<char>, p2: Seq<char>, d2: Seq<char>)
    requires
        p1.len() > 0 && p1.last() == '=',
        p2.len() > 0 && p2.last() == '=',
        all_digits(d1),
        all_digits(d2),
        p1 + d1 == p2 + d2,
    ensures
        d1 == d2,
{
    assert((p1 + d1).len() == (p2 + d2).len());
    assert((p1 + d1).len() == p1.len() + d1.len());
    assert((p2 + d2).len() == p2.len() + d2.len());
    assert(p1.len() + d1.len() == p2.len() + d2.len());
    assert(!crate::text::is_digit('='));
    if d1.len() < d2.len() {
        let k = p1.len() - 1;
        assert(p1.len() > p2.len());
        assert((p1 + d1)[k] == '=');
        assert(k >= p2.len());
        assert((p2 + d2)[k] == d2[k - p2.len()]);
        assert(crate::text::is_digit(d2[k - p2.len()]));
        assert(false);
    } else if d2.len() < d1.len() {
        let k = p2.len() - 1;
        assert(p2.len() > p1.len());
        assert((p2 + d2)[k] == '=');
        assert(k >= p1.len());
        assert((p1 + d1)[k] == d1[k - p1.len()]);
        assert(crate::text::is_digit(d1[k - p1.len()]));
        assert(false);
    } else {
        assert(p1.len() == p2.len());
        assert forall|i: int| 0 <= i < d1.len() implies d1[i] == d2[i] by {
            assert((p1 + d1)[p1.len() + i] == d1[i]);
            assert((p2 + d2)[p2.len() + i] == d2[i]);
        }
        assert(d1 =~= d2);
    }
}

/// The URL of the seat management API of an account.
pub open spec fn seats_url_text(account_id: Seq<char>) -> Seq<char> {
    CLOUDFLARE_API_BASE@ + "/accounts/"@ + account_id + "/access/seats"@
}

/// Builds the URL of the seat management API of an account.
pub fn seats_url(account_id: &str) -> (r: String)
    ensures
        r@ == seats_url_text(account_id@),
        r@ == CLOUDFLARE_API_BASE@ + "/accounts/"@ + account_id@ + "/access/seats"@,
{
    let mut url = String::from_str(CLOUDFLARE_API_BASE);
    url.append("/accounts/");
    url.append(account_id);
    url.append("/access/seats");
    url
}

/// The value of the `Authorization` header for an API token.
pub fn bearer_authorization(api_token: &str) -> (r: String)
    ensures
        r@ == "Bearer "@ + api_token@,
{
    let mut value = String::from_str("Bearer ");
    value.append(api_token);
    value
}

/// The request body that takes away both seats of one seat id.
pub fn seat_revocation_body(seat_uid: &str) -> (r: Vec<SeatUpdate>)
    ensures
        r@.len() == 1,
        r@[0].access_seat == false,
        r@[0].gateway_seat == false,
        r@[0].seat_uid@ == seat_uid@,
{
    let mut body: Vec<SeatUpdate> = Vec::new();
    body.push(SeatUpdate { access_seat: false, gateway_seat: false, seat_uid: String::from_str(seat_uid) });
    body
}

/// The users of one page and its pagination details; an answer without a
/// result holds no users.
pub fn page_of_users(response: ApiResponse<Vec<CloudFlareUser>>) -> (r: (Vec<CloudFlareUser>, Option<ResultInfo>))
    ensures
        r.0@ == match response.result {
            Some(users) => users@,
            None => Seq::<CloudFlareUser>::empty(),
        },
        r.1 == response.result_info,
{
    let users = match response.result {
        Some(users) => users,
        None => Vec::new(),
    };
    (users, response.result_info)
}

/// Whether the walk through the user list goes on after a page: only when
/// the page came with pagination details, was not empty, and fewer users
/// than the reported total have been collected.
pub open spec fn walk_continues(collected: int, page_len: int, info: Option<ResultInfo>) -> bool {
    match info {
        Some(i) => !(collected >= i.total_count || page_len == 0),
        None => false,
    }
}

/// The walk through the pages of the user list: the next page to fetch and
/// the users collected so far.
#[derive(Debug)]
pub struct UserPages {
    pub page: u32,
    pub users: Vec<CloudFlareUser>,
    pub done: bool,
}

impl UserPages {
    /// Each page that the walk went past held at least one user.
    pub open spec fn wf(self) -> bool {
        &&& self.page >= 1
        &&& self.page - 1 <= self.users@.len()
    }

    /// A walk that starts at the first page.
    pub fn new() -> (r: Self)
        ensures
            r.wf(),
            r.page == 1,
            r.users@.len() == 0,
            !r.done,
    {
        UserPages { page: 1, users: Vec::new(), done: false }
    }

    /// Whether the walk would go on after a page of `page_len` users with
    /// these pagination details.
    pub fn continues_after(&self, page_len: usize, info: &Option<ResultInfo>) -> (r: bool)
        ensures
            r == walk_continues(self.users@.len() + page_len, page_len as int, *info),
    {
        match info {
            Some(i) => {
                let collected: u128 = self.users.len() as u128 + page_len as u128;
                !(collected >= i.total_count as u128 || page_len == 0)
            },
            None => false,
        }
    }

    /// Takes in one fetched page: its users are appended, and the walk moves
    /// to the next page or ends.
    pub fn absorb(&mut self, page_users: Vec<CloudFlareUser>, info: Option<ResultInfo>)
        requires
            old(self).wf(),
            !old(self).done,
            walk_continues((old(self).users@.len() + page_users@.len()) as int, page_users@.len() as int, info)
                ==> old(self).page < u32::MAX,
        ensures
            final(self).wf(),
            final(self).users@ == old(self).users@ + page_users@,
            final(self).done == !walk_continues((old(self).users@.len() + page_users@.len()) as int, page_users@.len() as int, info),
            final(self).page == if final(self).done { old(self).page } else { (old(self).page + 1) as u32 },
    {
        let page_len = page_users.len();
        let go_on = self.continues_after(page_len, &info);
        let mut page_users = page_users;
        self.users.append(&mut page_users);
        if go_on {
            self.page = self.page + 1;
        } else {
            self.done = true;
        }
    }
}

} // verus!
