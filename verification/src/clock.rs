//! Time spans given on the command line, login time stamps, and the
//! `--older-than` selection built from them.

use vstd::prelude::*;
use crate::selection::sorted_for_review;
use crate::text::{chars_of, decimal_text, lemma_decimal_reads_back, parse_i64_chars, parse_i64_text};
use crate::user::User;

verus! {

/// Seconds in a day.
pub const SECONDS_PER_DAY: i64 = 86400;

/// Seconds in an hour.
pub const SECONDS_PER_HOUR: i64 = 3600;

/// The largest number of whole seconds a `chrono::TimeDelta` holds, either
/// way: `i64::MAX` milliseconds.
pub const TIME_DELTA_MAX_SECONDS: i64 = 9_223_372_036_854_775;

/// Calls `chrono::TimeDelta::days` and takes the whole seconds of the
/// result.  chrono documents it as `TimeDelta::seconds(days * 24 * 60 * 60)`,
/// which panics beyond `i64::MAX / 1000` seconds either way; the requires
/// clause leaves those inputs out.
#[verifier::external_body]
fn time_delta_days(days: i64) -> (seconds: i64)
    requires
        -TIME_DELTA_MAX_SECONDS <= days * SECONDS_PER_DAY <= TIME_DELTA_MAX_SECONDS,
    ensures
        seconds == days * SECONDS_PER_DAY,
{
    chrono::TimeDelta::days(days).num_seconds()
}

/// Calls `chrono::TimeDelta::hours` and takes the whole seconds of the
/// result.  chrono documents it as `TimeDelta::seconds(hours * 60 * 60)`,
/// which panics beyond `i64::MAX / 1000` seconds either way; the requires
/// clause leaves those inputs out.
#[verifier::external_body]
fn time_delta_hours(hours: i64) -> (seconds: i64)
    requires
        -TIME_DELTA_MAX_SECONDS <= hours * SECONDS_PER_HOUR <= TIME_DELTA_MAX_SECONDS,
    ensures
        seconds == hours * SECONDS_PER_HOUR,
{
    chrono::TimeDelta::hours(hours).num_seconds()
}

/// A span of time in whole seconds.
#[derive(Debug, Clone, Copy)]
pub struct TimeSpan {
    pub seconds: i64,
}

/// Why a duration text was refused.
#[derive(PartialEq, Eq, Structural, Debug, Clone, Copy)]
pub enum DurationError {
    /// The text ends in `d` or `h` but the rest is not an integer.
    InvalidNumber,
    /// The text ends in neither `d` (days) nor `h` (hours).
    InvalidUnit,
}

/// The number of seconds a duration text stands for: an integer followed
/// by `d` for days or `h` for hours.
pub open spec fn duration_seconds(s: Seq<char>) -> Result<int, DurationError> {
    if s.len() > 0 && s.last() == 'd' {
        match parse_i64_text(s.drop_last()) {
            Some(n) => Ok(n * SECONDS_PER_DAY),
            None => Err(DurationError::InvalidNumber),
        }
    } else if s.len() > 0 && s.last() == 'h' {
        match parse_i64_text(s.drop_last()) {
            Some(n) => Ok(n * SECONDS_PER_HOUR),
            None => Err(DurationError::InvalidNumber),
        }
    } else {
        Err(DurationError::InvalidUnit)
    }
}

/// Whether a duration text, if well formed, stays within what a
/// `chrono::TimeDelta` holds.
pub open spec fn duration_fits(s: Seq<char>) -> bool {
    duration_seconds(s) matches Ok(v) ==> -TIME_DELTA_MAX_SECONDS <= v <= TIME_DELTA_MAX_SECONDS
}

/// Whether a duration text, if well formed, stays within what a
/// `chrono::TimeDelta` holds (`parse_duration` needs it).
pub fn duration_fits_time_delta(s: &str) -> (r: bool)
    ensures
        r == duration_fits(s@),
{
    let chars = chars_of(s);
    let n = chars.len();
    if n == 0 {
        return true;
    }
    let unit = chars[n - 1];
    if unit != 'd' && unit != 'h' {
        return true;
    }
    proof {
        assert(chars@.take((n - 1) as int) == s@.drop_last());
    }
    match parse_i64_chars(&chars, n - 1) {
        Some(amount) => {
            let factor: i128 = if unit == 'd' { SECONDS_PER_DAY as i128 } else { SECONDS_PER_HOUR as i128 };
            let v: i128 = amount as i128 * factor;
            -(TIME_DELTA_MAX_SECONDS as i128) <= v && v <= TIME_DELTA_MAX_SECONDS as i128
        },
        None => true,
    }
}

/// Parses a duration such as `2d` (days) or `48h` (hours).
pub fn parse_duration(s: &str) -> (r: Result<TimeSpan, DurationError>)
    requires
        duration_fits(s@),
    ensures
        match duration_seconds(s@) {
            Ok(v) => r matches Ok(span) && span.seconds == v,
            Err(e) => r matches Err(e2) && e2 == e,
        },
{
    let chars = chars_of(s);
    let n = chars.len();
    if n == 0 {
        return Err(DurationError::InvalidUnit);
    }
    let unit = chars[n - 1];
    proof {
        assert(chars@.take((n - 1) as int) == s@.drop_last());
    }
    if unit == 'd' {
        match parse_i64_chars(&chars, n - 1) {
            Some(days) => Ok(TimeSpan { seconds: time_delta_days(days) }),
            None => Err(DurationError::InvalidNumber),
        }
    } else if unit == 'h' {
        match parse_i64_chars(&chars, n - 1) {
            Some(hours) => Ok(TimeSpan { seconds: time_delta_hours(hours) }),
            None => Err(DurationError::InvalidNumber),
        }
    } else {
        Err(DurationError::InvalidUnit)
    }
}

/// The Unix time (in whole seconds) of an RFC 3339 time stamp, as
/// `chrono::DateTime::parse_from_rfc3339` reads it, or `None` when chrono
/// refuses the text.
pub uninterp spec fn rfc3339_timestamp(s: Seq<char>) -> Option<i64>;

/// Calls `chrono::DateTime::parse_from_rfc3339` and takes the Unix time of
/// the result.  The result depends on the text alone; the contract names it
/// `rfc3339_timestamp` and says no more of the RFC 3339 grammar.
#[verifier::external_body]
pub(crate) fn parse_login_time(s: &str) -> (r: Option<i64>)
    ensures
        r == rfc3339_timestamp(s@),
{
    match chrono::DateTime::parse_from_rfc3339(s) {
        Ok(t) => Some(t.timestamp()),
        Err(_) => None,
    }
}

#[verifier::external_type_specification]
#[verifier::external_body]
pub struct ExSystemTime(std::time::SystemTime);

/// Calls `std::time::SystemTime::now`.  It reads the system clock, so
/// nothing is promised of the value.
#[verifier::external_body]
fn system_time_now() -> (r: std::time::SystemTime) {
    std::time::SystemTime::now()
}

/// Calls `SystemTime::duration_since(UNIX_EPOCH)` and takes the whole
/// seconds of the span: `Ok` with the seconds since the epoch, or `Err`
/// with the seconds by which the time lies before it.  The time is opaque
/// here, so nothing is promised of the numbers.
#[verifier::external_body]
fn seconds_from_epoch(t: &std::time::SystemTime) -> (r: Result<u64, u64>) {
    match t.duration_since(std::time::UNIX_EPOCH) {
        Ok(d) => Ok(d.as_secs()),
        Err(e) => Err(e.duration().as_secs()),
    }
}

/// The current Unix time in whole seconds, negative for a clock set before
/// 1970.  It reads the system clock, so nothing is promised of the value
/// beyond what a whole number of seconds on either side of the epoch, each
/// held in a `u64`, can be.
fn now_unix_seconds() -> (r: i128)
    ensures
        clock_reading_in_range(r as int),
{
    let now = system_time_now();
    match seconds_from_epoch(&now) {
        Ok(after) => after as i128,
        Err(before) => -(before as i128),
    }
}

/// Whether a Unix time in seconds is one that the system clock can report:
/// at most `u64::MAX` whole seconds after or before the epoch.
pub open spec fn clock_reading_in_range(now: int) -> bool {
    -(u64::MAX as int) <= now <= u64::MAX as int
}

/// Whether a user's last login lies further back than `threshold` seconds
/// before `now`.  Users with no login record, or one that is not an RFC
/// 3339 time stamp, always count as older.
pub open spec fn login_older_than(user: User, threshold: int, now: int) -> bool {
    match user.last_successful_login {
        None => true,
        Some(ts) => match rfc3339_timestamp(ts@) {
            None => true,
            Some(t) => now - t > threshold,
        },
    }
}

impl User {
    /// True if this user's last login lies further back than `threshold`
    /// before `now` (Unix seconds); users without a login record always are.
    pub fn last_login_older_than(&self, threshold: &TimeSpan, now: i128) -> (r: bool)
        ensures
            r == login_older_than(*self, threshold.seconds as int, now as int),
    {
        match &self.last_successful_login {
            None => true,
            Some(ts) => match parse_login_time(ts.as_str()) {
                None => true,
                Some(t) => now > (t as i128) + (threshold.seconds as i128),
            },
        }
    }
}

/// The users, in their order, whose last login is older than `threshold`
/// before `now`.
pub open spec fn older_than_filter(users: Seq<User>, threshold: int, now: int) -> Seq<User>
    decreases users.len(),
{
    if users.len() == 0 {
        Seq::empty()
    } else {
        let rest = older_than_filter(users.drop_last(), threshold, now);
        if login_older_than(users.last(), threshold, now) {
            rest.push(users.last())
        } else {
            rest
        }
    }
}

/// Keeps the users whose last login is older than `threshold` before `now`,
/// in their order.
pub fn retain_older_than(users: Vec<User>, threshold: &TimeSpan, now: i128) -> (r: Vec<User>)
    ensures
        r@ == older_than_filter(users@, threshold.seconds as int, now as int),
{
    let ghost input = users@;
    let mut kept: Vec<User> = Vec::new();
    for user in it: users
        invariant
            it.seq() == input,
            kept@ == older_than_filter(input.take(it.index() as int), threshold.seconds as int, now as int),
    {
        proof {
            assert(input.take(it.index() + 1).drop_last() == input.take(it.index() as int));
        }
        if user.last_login_older_than(threshold, now) {
            kept.push(user);
        }
    }
    proof {
        assert(input.take(input.len() as int) == input);
    }
    kept
}

/// Keeps the users whose last login is older than `threshold` before the
/// current time, in their order.  The clock is read once; whatever time it
/// gives, the users kept are those older than the threshold at a time that
/// the clock can report.
pub fn retain_older_than_now(users: Vec<User>, threshold: &TimeSpan) -> (r: Vec<User>)
    ensures
        exists|now: i128|
            clock_reading_in_range(now as int) && r@ == older_than_filter(users@, threshold.seconds as int, now as int),
{
    let now = now_unix_seconds();
    retain_older_than(users, threshold, now)
}

/// The `--older-than` selection keeps exactly the users older than the
/// threshold, keeps every user without a login record, and keeps the review
/// order of what it is given.
pub proof fn lemma_older_than_filter(users: Seq<User>, threshold: int, now: int)
    ensures
        forall|u: User| #[trigger] older_than_filter(users, threshold, now).contains(u) <==> (users.contains(u)
            && login_older_than(u, threshold, now)),
        forall|i: int| 0 <= i < users.len() && (#[trigger] users[i]).last_successful_login is None
            ==> older_than_filter(users, threshold, now).contains(users[i]),
        sorted_for_review(users) ==> sorted_for_review(older_than_filter(users, threshold, now)),
        older_than_filter(users, threshold, now).len() <= users.len(),
    decreases users.len(),
{
    if users.len() > 0 {
        let init = users.drop_last();
        lemma_older_than_filter(init, threshold, now);
        let rest = older_than_filter(init, threshold, now);
        let all = older_than_filter(users, threshold, now);
        assert forall|u: User| #[trigger] all.contains(u) <==> (users.contains(u) && login_older_than(u, threshold, now)) by {
            if all.contains(u) {
                let k = choose|k: int| 0 <= k < all.len() && all[k] == u;
                if k < rest.len() {
                    assert(rest[k] == u);
                    assert(rest.contains(u));
                    assert(init.contains(u));
                    let j = choose|j: int| 0 <= j < init.len() && init[j] == u;
                    assert(users[j] == u);
                } else {
                    assert(users[users.len() - 1] == u);
                }
            }
            if users.contains(u) && login_older_than(u, threshold, now) {
                let j = choose|j: int| 0 <= j < users.len() && users[j] == u;
                if j < users.len() - 1 {
                    assert(init[j] == u);
                    assert(rest.contains(u));
                    let k = choose|k: int| 0 <= k < rest.len() && rest[k] == u;
                    if login_older_than(users.last(), threshold, now) {
                        assert(all[k] == u);
                    }
                } else {
                    assert(all[rest.len() as int] == u);
                }
            }
        }
        assert forall|i: int| 0 <= i < users.len() && (#[trigger] users[i]).last_successful_login is None
            implies all.contains(users[i]) by {
            assert(users.contains(users[i]));
        }
        if sorted_for_review(users) {
            assert(sorted_for_review(init)) by {
                assert forall|i: int, j: int| 0 <= i < j < init.len() implies !crate::selection::review_less(#[trigger] init[j], #[trigger] init[i]) by {
                    assert(init[i] == users[i] && init[j] == users[j]);
                }
            }
            if login_older_than(users.last(), threshold, now) {
                assert forall|i: int, j: int| 0 <= i < j < all.len() implies !crate::selection::review_less(#[trigger] all[j], #[trigger] all[i]) by {
                    if j == rest.len() {
                        assert(rest.contains(all[i]));
                        let k = choose|k: int| 0 <= k < init.len() && init[k] == all[i];
                        assert(users[k] == all[i]);
                        assert(all[j] == users[users.len() - 1]);
                    } else {
                        assert(all[i] == rest[i] && all[j] == rest[j]);
                    }
                }
            }
        }
    }
}

/// A number of days and twenty-four times as many hours are the same
/// span: `Nd` and `(24 N)h` parse to the same number of seconds.
pub proof fn lemma_days_are_24_hours(n: nat)
    requires
        24 * n <= i64::MAX,
    ensures
        duration_seconds(decimal_text(n).push('d')) == Ok::<int, DurationError>(n * SECONDS_PER_DAY),
        duration_seconds(decimal_text(24 * n).push('h')) == Ok::<int, DurationError>(n * SECONDS_PER_DAY),
{
    lemma_decimal_reads_back(n);
    lemma_decimal_reads_back(24 * n);
    assert(decimal_text(n).push('d').drop_last() == decimal_text(n));
    assert(decimal_text(24 * n).push('h').drop_last() == decimal_text(24 * n));
}

/// What `--older-than` means for one user: a user whose last login reads as
/// time `t` is kept exactly when more than `threshold` seconds lie between
/// `t` and `now` (strictly), so a later clock or a smaller threshold never
/// drops a user that was kept; a user without a readable login is kept.
pub proof fn lemma_older_than_meaning(u: User, threshold: int, now: int, later: int, smaller: int)
    requires
        now <= later,
        smaller <= threshold,
    ensures
        u.last_successful_login matches Some(ts) ==> (rfc3339_timestamp(ts@) matches Some(t) ==> (login_older_than(
            u,
            threshold,
            now,
        ) <==> now - t > threshold)),
        u.last_successful_login is None ==> login_older_than(u, threshold, now),
        login_older_than(u, threshold, now) ==> login_older_than(u, threshold, later),
        login_older_than(u, threshold, now) ==> login_older_than(u, smaller, now),
{
}

} // verus!
