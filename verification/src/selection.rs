//! Which users lose their seat, and in which order they are presented.

use vstd::prelude::*;
use crate::text::{chars_of, chars_less, chars_equal, lex_less, lowercase, to_lowercase,
    lemma_lex_less_irreflexive, lemma_lex_less_transitive, lemma_lex_less_trichotomy};
use crate::user::{CloudFlareUser, User, email_in_list, user_from_cloudflare};

verus! {

broadcast use vstd::seq_lib::group_to_multiset_ensures;

/// Whether a CloudFlare user is one whose seat is to be revoked: it holds an
/// active seat, has an e-mail address, and that address is not on the
/// permanent list.
pub open spec fn is_revocation_candidate(cf: CloudFlareUser, permanent: Seq<User>) -> bool {
    &&& cf.access_seat
    &&& cf.email is Some
    &&& !email_in_list(cf.email->0@, permanent)
}

/// The users whose seats are to be revoked, in the order the API listed them.
pub open spec fn revocation_candidates(users: Seq<CloudFlareUser>, permanent: Seq<User>) -> Seq<User>
    decreases users.len(),
{
    if users.len() == 0 {
        Seq::empty()
    } else {
        let rest = revocation_candidates(users.drop_last(), permanent);
        if is_revocation_candidate(users.last(), permanent) {
            rest.push(user_from_cloudflare(users.last())->Ok_0)
        } else {
            rest
        }
    }
}

/// Ids of the users that hold an active seat but have no e-mail address;
/// they are skipped.
pub open spec fn seat_holders_without_email(users: Seq<CloudFlareUser>) -> Seq<String>
    decreases users.len(),
{
    if users.len() == 0 {
        Seq::empty()
    } else {
        let rest = seat_holders_without_email(users.drop_last());
        if users.last().access_seat && users.last().email is None {
            rest.push(users.last().id)
        } else {
            rest
        }
    }
}

/// Number of users with an active seat.
pub open spec fn active_seat_count(users: Seq<CloudFlareUser>) -> nat
    decreases users.len(),
{
    if users.len() == 0 {
        0
    } else {
        active_seat_count(users.drop_last()) + if users.last().access_seat { 1nat } else { 0nat }
    }
}

/// Review order: users without a recorded login come first, then by the
/// login time stamp text; ties are broken by the lower-case e-mail address.
/// `review_less(a, b)` holds when `a` is to be shown strictly before `b`.
pub open spec fn review_less(a: User, b: User) -> bool {
    let ea = lowercase(a.email@);
    let eb = lowercase(b.email@);
    match (a.last_successful_login, b.last_successful_login) {
        (None, None) => lex_less(ea, eb),
        (None, Some(_)) => true,
        (Some(_), None) => false,
        (Some(la), Some(lb)) => lex_less(la@, lb@) || (la@ == lb@ && lex_less(ea, eb)),
    }
}

/// No user of the sequence is strictly before one that precedes it.
pub open spec fn sorted_for_review(s: Seq<User>) -> bool {
    forall|i: int, j: int| 0 <= i < j < s.len() ==> !review_less(#[trigger] s[j], #[trigger] s[i])
}

/// The review order is a strict order: irreflexive and transitive.
pub proof fn lemma_review_less_strict_order(a: User, b: User, c: User)
    ensures
        !review_less(a, a),
        review_less(a, b) && review_less(b, c) ==> review_less(a, c),
{
    lemma_lex_less_irreflexive(lowercase(a.email@), 0);
    if let Some(la) = a.last_successful_login {
        lemma_lex_less_irreflexive(la@, 0);
    }
    if review_less(a, b) && review_less(b, c) {
        let (ea, eb, ec) = (lowercase(a.email@), lowercase(b.email@), lowercase(c.email@));
        if lex_less(ea, eb) && lex_less(eb, ec) {
            lemma_lex_less_transitive(ea, eb, ec, 0);
        }
        match (a.last_successful_login, b.last_successful_login, c.last_successful_login) {
            (Some(la), Some(lb), Some(lc)) => {
                if lex_less(la@, lb@) && lex_less(lb@, lc@) {
                    lemma_lex_less_transitive(la@, lb@, lc@, 0);
                }
            },
            _ => {},
        }
    }
}

/// The login time stamp text of a user, if any.
pub open spec fn login_key(u: User) -> Option<Seq<char>> {
    match u.last_successful_login {
        Some(l) => Some(l@),
        None => None,
    }
}

/// Whether two users have the same place in the review order: the same
/// login time stamp text (or none for both) and the same lower-case e-mail
/// address.
pub open spec fn same_review_key(a: User, b: User) -> bool {
    login_key(a) == login_key(b) && lowercase(a.email@) == lowercase(b.email@)
}

/// Two users neither of which comes before the other have the same review
/// key, and users with the same key stand in the same relation to any
/// third user.
pub proof fn lemma_review_key(a: User, b: User, c: User)
    ensures
        (!review_less(a, b) && !review_less(b, a)) <==> same_review_key(a, b),
        same_review_key(a, c) ==> (review_less(a, b) == review_less(c, b) && review_less(b, a) == review_less(b, c)),
{
    let (ea, eb) = (lowercase(a.email@), lowercase(b.email@));
    assert(ea.subrange(0, 0) == eb.subrange(0, 0));
    lemma_lex_less_trichotomy(ea, eb, 0);
    lemma_lex_less_irreflexive(ea, 0);
    match (a.last_successful_login, b.last_successful_login) {
        (Some(la), Some(lb)) => {
            assert(la@.subrange(0, 0) == lb@.subrange(0, 0));
            lemma_lex_less_trichotomy(la@, lb@, 0);
            lemma_lex_less_irreflexive(la@, 0);
        },
        _ => {},
    }
}

/// The users of a sequence that have the same review key as `x`, in order.
pub open spec fn with_review_key(s: Seq<User>, x: User) -> Seq<User>
    decreases s.len(),
{
    if s.len() == 0 {
        Seq::empty()
    } else {
        let rest = with_review_key(s.drop_last(), x);
        if same_review_key(s.last(), x) {
            rest.push(s.last())
        } else {
            rest
        }
    }
}

/// Inserting a user behind every user of its key adds it at the end of its
/// key's subsequence and leaves the other keys' subsequences alone.
proof fn lemma_with_review_key_insert(s: Seq<User>, p: int, u: User, x: User)
    requires
        0 <= p <= s.len(),
        same_review_key(u, x) ==> forall|k: int| p <= k < s.len() ==> !same_review_key(#[trigger] s[k], x),
    ensures
        same_review_key(u, x) ==> with_review_key(s.insert(p, u), x) == with_review_key(s, x).push(u),
        !same_review_key(u, x) ==> with_review_key(s.insert(p, u), x) == with_review_key(s, x),
    decreases s.len() - p,
{
    if p == s.len() {
        assert(s.insert(p, u) == s.push(u));
        assert(s.push(u).drop_last() == s);
    } else {
        let init = s.drop_last();
        assert(s.insert(p, u) == init.insert(p, u).push(s.last()));
        assert(init.insert(p, u).push(s.last()).drop_last() == init.insert(p, u));
        assert forall|k: int| p <= k < init.len() implies #[trigger] init[k] == s[k] by {}
        lemma_with_review_key_insert(init, p, u, x);
        if same_review_key(u, x) {
            assert(!same_review_key(s[s.len() - 1], x));
        }
    }
}

/// A user is in the subsequence of a key exactly when it is in the
/// sequence and has that key.
pub proof fn lemma_with_review_key_contains(s: Seq<User>, x: User, e: User)
    ensures
        with_review_key(s, x).contains(e) <==> (s.contains(e) && same_review_key(e, x)),
    decreases s.len(),
{
    if s.len() > 0 {
        let init = s.drop_last();
        lemma_with_review_key_contains(init, x, e);
        let rest = with_review_key(init, x);
        if with_review_key(s, x).contains(e) {
            let k = choose|k: int| 0 <= k < with_review_key(s, x).len() && with_review_key(s, x)[k] == e;
            if k < rest.len() {
                assert(rest[k] == e);
                assert(rest.contains(e));
                let j = choose|j: int| 0 <= j < init.len() && init[j] == e;
                assert(s[j] == e);
            } else {
                assert(s[s.len() - 1] == e);
            }
        }
        if s.contains(e) && same_review_key(e, x) {
            let j = choose|j: int| 0 <= j < s.len() && s[j] == e;
            if j < s.len() - 1 {
                assert(init[j] == e);
                assert(init.contains(e));
                let k = choose|k: int| 0 <= k < rest.len() && rest[k] == e;
                if same_review_key(s.last(), x) {
                    assert(with_review_key(s, x)[k] == e);
                }
            } else {
                assert(with_review_key(s, x)[rest.len() as int] == e);
            }
        }
    }
}

/// The review order, together with the order within each key, determines
/// the sequence: two sequences sorted for review whose users of each key
/// come in the same order are equal.
pub proof fn lemma_review_order_unique(a: Seq<User>, b: Seq<User>)
    requires
        sorted_for_review(a),
        sorted_for_review(b),
        forall|x: User| #[trigger] with_review_key(a, x) == with_review_key(b, x),
    ensures
        a == b,
    decreases a.len() + b.len(),
{
    if a.len() == 0 && b.len() == 0 {
        assert(a =~= b);
    } else if a.len() == 0 {
        let y = b.last();
        lemma_with_review_key_contains(b, y, y);
        lemma_with_review_key_contains(a, y, y);
        assert(b.contains(y) && same_review_key(y, y));
        assert(!a.contains(y));
    } else if b.len() == 0 {
        let z = a.last();
        lemma_with_review_key_contains(a, z, z);
        lemma_with_review_key_contains(b, z, z);
        assert(a.contains(z) && same_review_key(z, z));
        assert(!b.contains(z));
    } else {
        let z = a.last();
        let y = b.last();
        lemma_review_key(z, y, z);
        if !same_review_key(z, y) {
            lemma_with_review_key_contains(b, y, y);
            lemma_with_review_key_contains(a, y, y);
            assert(b.contains(y));
            assert(a.contains(y));
            let i = choose|i: int| 0 <= i < a.len() && a[i] == y;
            lemma_with_review_key_contains(a, z, z);
            lemma_with_review_key_contains(b, z, z);
            assert(a.contains(z));
            assert(b.contains(z));
            let j = choose|j: int| 0 <= j < b.len() && b[j] == z;
            lemma_review_key(y, z, y);
            assert(i != a.len() - 1);
            assert(j != b.len() - 1);
            assert(!review_less(a[a.len() - 1], a[i]));
            assert(!review_less(b[b.len() - 1], b[j]));
            assert(false);
        }
        assert(with_review_key(a, z).last() == z);
        assert(same_review_key(y, z));
        assert(with_review_key(b, z).last() == y);
        assert(y == z);
        let (ia, ib) = (a.drop_last(), b.drop_last());
        assert(sorted_for_review(ia)) by {
            assert forall|i: int, j: int| 0 <= i < j < ia.len() implies !review_less(#[trigger] ia[j], #[trigger] ia[i]) by {
                assert(ia[i] == a[i] && ia[j] == a[j]);
            }
        }
        assert(sorted_for_review(ib)) by {
            assert forall|i: int, j: int| 0 <= i < j < ib.len() implies !review_less(#[trigger] ib[j], #[trigger] ib[i]) by {
                assert(ib[i] == b[i] && ib[j] == b[j]);
            }
        }
        assert forall|x: User| #[trigger] with_review_key(ia, x) == with_review_key(ib, x) by {
            assert(with_review_key(a, x) == with_review_key(b, x));
            if same_review_key(z, x) {
                assert(with_review_key(ia, x) == with_review_key(a, x).drop_last());
                assert(with_review_key(ib, x) == with_review_key(b, x).drop_last());
            }
        }
        lemma_review_order_unique(ia, ib);
        assert(a == ia.push(z));
        assert(b == ib.push(y));
    }
}

/// The summary of a selection: users to revoke in review order, and the ids
/// of seat holders skipped for want of an e-mail address.
#[derive(Debug)]
pub struct UsersToRevoke {
    pub users: Vec<User>,
    pub skipped_without_email: Vec<String>,
    pub with_active_seat: usize,
}

/// Whether `a` is to be shown strictly before `b`.
pub fn review_precedes(a: &User, b: &User) -> (r: bool)
    ensures
        r == review_less(*a, *b),
{
    let ea = chars_of(to_lowercase(a.email.as_str()).as_str());
    let eb = chars_of(to_lowercase(b.email.as_str()).as_str());
    match (&a.last_successful_login, &b.last_successful_login) {
        (None, None) => chars_less(&ea, &eb),
        (None, Some(_)) => true,
        (Some(_), None) => false,
        (Some(la), Some(lb)) => {
            let ca = chars_of(la.as_str());
            let cb = chars_of(lb.as_str());
            chars_less(&ca, &cb) || (chars_equal(&ca, &cb) && chars_less(&ea, &eb))
        },
    }
}

/// Sorts users into review order, keeping the order of users that neither
/// precedes the other.
pub fn sort_for_review(users: Vec<User>) -> (r: Vec<User>)
    ensures
        r@.to_multiset() == users@.to_multiset(),
        sorted_for_review(r@),
        forall|x: User| #[trigger] with_review_key(r@, x) == with_review_key(users@, x),
{
    let ghost input = users@;
    let mut sorted: Vec<User> = Vec::new();
    for user in it: users
        invariant
            it.seq() == input,
            sorted@.to_multiset() == input.take(it.index() as int).to_multiset(),
            sorted_for_review(sorted@),
            forall|x: User| #[trigger] with_review_key(sorted@, x) == with_review_key(input.take(it.index() as int), x),
    {
        let mut p: usize = 0;
        while p < sorted.len() && !review_precedes(&user, &sorted[p])
            invariant
                0 <= p <= sorted@.len(),
                forall|k: int| 0 <= k < p ==> !review_less(user, #[trigger] sorted@[k]),
            decreases sorted@.len() - p,
        {
            p = p + 1;
        }
        let ghost before = sorted@;
        proof {
            assert forall|k: int| p <= k < before.len() implies !review_less(#[trigger] before[k], user) by {
                lemma_review_less_strict_order(before[k], user, before[p as int]);
                lemma_review_less_strict_order(before[p as int], user, before[p as int]);
            }
        }
        sorted.insert(p, user);
        proof {
            let s = sorted@;
            assert(s == before.insert(p as int, user));
            assert forall|i: int, j: int| 0 <= i < j < s.len() implies !review_less(#[trigger] s[j], #[trigger] s[i]) by {
                if j < p {
                } else if j == p {
                } else if i < p {
                    assert(s[j] == before[j - 1]);
                    if review_less(s[j], s[i]) {
                        // s[i] is not after user and user is not after s[j]
                        lemma_review_less_strict_order(user, s[j], s[i]);
                        assert(!review_less(before[j - 1], user));
                        lemma_review_less_strict_order(before[j - 1], s[i], user);
                    }
                } else if i == p {
                } else {
                    assert(s[i] == before[i - 1]);
                    assert(s[j] == before[j - 1]);
                }
            }
            assert(input.take(it.index() + 1) == input.take(it.index() as int).push(user));
            assert(input.take(it.index() + 1).drop_last() == input.take(it.index() as int));
            assert forall|x: User| #[trigger] with_review_key(s, x) == with_review_key(input.take(it.index() + 1), x) by {
                if same_review_key(user, x) {
                    assert forall|k: int| p <= k < before.len() implies !same_review_key(#[trigger] before[k], x) by {
                        if same_review_key(before[k], x) {
                            lemma_review_key(before[k], before[p as int], user);
                            lemma_review_less_strict_order(before[p as int], user, before[p as int]);
                            if k > p {
                                assert(!review_less(before[k], before[p as int]));
                            }
                        }
                    }
                }
                lemma_with_review_key_insert(before, p as int, user, x);
            }
        }
    }
    proof {
        assert(input.take(input.len() as int) == input);
    }
    sorted
}

/// The permanent users named by the configuration's e-mail list.
pub fn permanent_users(emails: Vec<String>) -> (r: Vec<User>)
    ensures
        r@.len() == emails@.len(),
        forall|i: int| 0 <= i < r@.len() ==> #[trigger] r@[i] == (User {
            id: None,
            email: emails@[i],
            seat_uid: None,
            last_successful_login: None,
        }),
{
    let ghost input = emails@;
    let mut r: Vec<User> = Vec::new();
    for email in it: emails
        invariant
            it.seq() == input,
            r@.len() == it.index(),
            forall|i: int| 0 <= i < r@.len() ==> #[trigger] r@[i] == (User {
                id: None,
                email: input[i],
                seat_uid: None,
                last_successful_login: None,
            }),
    {
        r.push(User::from_email(email));
    }
    r
}

/// From the users that CloudFlare lists, picks those whose seats are to be
/// revoked: active seat holders with an e-mail address that is not on the
/// permanent list, in review order.  Seat holders without an e-mail address
/// are skipped and their ids reported.
pub fn find_users_to_revoke(cloudflare_users: Vec<CloudFlareUser>, permanent_users: &[User]) -> (r: UsersToRevoke)
    ensures
        r.users@.to_multiset() == revocation_candidates(cloudflare_users@, permanent_users@).to_multiset(),
        forall|u: User| #[trigger] r.users@.contains(u) <==> revocation_candidates(cloudflare_users@, permanent_users@).contains(u),
        sorted_for_review(r.users@),
        forall|x: User| #[trigger] with_review_key(r.users@, x) == with_review_key(
            revocation_candidates(cloudflare_users@, permanent_users@),
            x,
        ),
        r.skipped_without_email@ == seat_holders_without_email(cloudflare_users@),
        r.with_active_seat == active_seat_count(cloudflare_users@),
        r.skipped_without_email@.len() <= r.with_active_seat,
{
    let ghost input = cloudflare_users@;
    let total = cloudflare_users.len();
    let mut current: Vec<User> = Vec::new();
    let mut skipped: Vec<String> = Vec::new();
    let mut with_seat: usize = 0;
    for cf_user in it: cloudflare_users
        invariant
            it.seq() == input,
            current@ == revocation_candidates(input.take(it.index() as int), permanent_users@),
            skipped@ == seat_holders_without_email(input.take(it.index() as int)),
            with_seat == active_seat_count(input.take(it.index() as int)),
            with_seat <= it.index(),
            skipped@.len() <= with_seat,
            it.index() <= input.len(),
            total == input.len(),
    {
        let ghost prefix = input.take(it.index() as int);
        let ghost next = input.take(it.index() + 1);
        proof {
            assert(next.drop_last() == prefix);
            assert(next.last() == cf_user);
        }
        if cf_user.has_active_seat() {
            assert(with_seat < total) by {
                assert(it.index() < input.len());
            }
            with_seat = with_seat + 1;
            match User::try_from(cf_user) {
                Ok(user) => {
                    if !user.is_in_permanent_list(permanent_users) {
                        current.push(user);
                    }
                },
                Err(e) => {
                    skipped.push(e.user_id);
                },
            }
        }
    }
    proof {
        assert(input.take(input.len() as int) == input);
    }
    let ghost candidates = current@;
    let users = sort_for_review(current);
    proof {
        assert forall|u: User| #[trigger] users@.contains(u) <==> candidates.contains(u) by {
            if users@.contains(u) {
                assert(users@.to_multiset().count(u) > 0);
            }
            if candidates.contains(u) {
                assert(candidates.to_multiset().count(u) > 0);
            }
        }
    }
    UsersToRevoke { users, skipped_without_email: skipped, with_active_seat: with_seat }
}

/// A user is selected for revocation exactly when it comes from a listed
/// CloudFlare user that holds an active seat, has an e-mail address, and is
/// not on the permanent list; in particular no user whose address matches a
/// permanent entry, ignoring case, is ever selected.
pub proof fn lemma_selection_exact(users: Seq<CloudFlareUser>, permanent: Seq<User>)
    ensures
        forall|u: User| #[trigger] revocation_candidates(users, permanent).contains(u) <==> exists|i: int|
            0 <= i < users.len() && #[trigger] is_revocation_candidate(users[i], permanent)
                && user_from_cloudflare(users[i]) == Ok::<User, crate::user::MissingEmailError>(u),
        forall|u: User| #[trigger] revocation_candidates(users, permanent).contains(u) ==> !email_in_list(u.email@, permanent),
    decreases users.len(),
{
    if users.len() > 0 {
        let init = users.drop_last();
        lemma_selection_exact(init, permanent);
        let rest = revocation_candidates(init, permanent);
        assert forall|u: User| #[trigger] revocation_candidates(users, permanent).contains(u) <==> exists|i: int|
            0 <= i < users.len() && #[trigger] is_revocation_candidate(users[i], permanent)
                && user_from_cloudflare(users[i]) == Ok::<User, crate::user::MissingEmailError>(u) by {
            if revocation_candidates(users, permanent).contains(u) {
                if rest.contains(u) {
                    let i = choose|i: int| 0 <= i < init.len() && #[trigger] is_revocation_candidate(init[i], permanent)
                        && user_from_cloudflare(init[i]) == Ok::<User, crate::user::MissingEmailError>(u);
                    assert(users[i] == init[i]);
                } else {
                    let k = choose|k: int| 0 <= k < revocation_candidates(users, permanent).len()
                        && revocation_candidates(users, permanent)[k] == u;
                    assert(k == rest.len());
                    assert(is_revocation_candidate(users[users.len() - 1], permanent));
                }
            }
            if exists|i: int| 0 <= i < users.len() && #[trigger] is_revocation_candidate(users[i], permanent)
                && user_from_cloudflare(users[i]) == Ok::<User, crate::user::MissingEmailError>(u) {
                let i = choose|i: int| 0 <= i < users.len() && #[trigger] is_revocation_candidate(users[i], permanent)
                    && user_from_cloudflare(users[i]) == Ok::<User, crate::user::MissingEmailError>(u);
                if i < users.len() - 1 {
                    assert(init[i] == users[i]);
                    assert(rest.contains(u));
                    let k = choose|k: int| 0 <= k < rest.len() && rest[k] == u;
                    if is_revocation_candidate(users.last(), permanent) {
                        assert(revocation_candidates(users, permanent)[k] == u);
                    }
                } else {
                    assert(revocation_candidates(users, permanent)[rest.len() as int] == u);
                }
            }
        }
        assert forall|u: User| #[trigger] revocation_candidates(users, permanent).contains(u) implies !email_in_list(u.email@, permanent) by {
            let i = choose|i: int| 0 <= i < users.len() && #[trigger] is_revocation_candidate(users[i], permanent)
                && user_from_cloudflare(users[i]) == Ok::<User, crate::user::MissingEmailError>(u);
        }
    }
}

/// What the review order means: users without a recorded login come
/// before users with one; of two logins, the one whose time stamp text is
/// lexicographically smaller comes first whatever the e-mail addresses;
/// only equal logins (or none on both sides) leave the order to the
/// lower-case e-mail addresses.
pub proof fn lemma_review_order_meaning(a: User, b: User)
    ensures
        (a.last_successful_login is None && b.last_successful_login is Some) ==> (review_less(a, b) && !review_less(
            b,
            a,
        )),
        (a.last_successful_login matches Some(la) && b.last_successful_login matches Some(lb) && lex_less(la@, lb@))
            ==> (review_less(a, b) && !review_less(b, a)),
        (a.last_successful_login matches Some(la) && b.last_successful_login matches Some(lb) && la@ == lb@) ==> (
        review_less(a, b) <==> lex_less(lowercase(a.email@), lowercase(b.email@))),
        (a.last_successful_login is None && b.last_successful_login is None) ==> (review_less(a, b) <==> lex_less(
            lowercase(a.email@),
            lowercase(b.email@),
        )),
{
    if let (Some(la), Some(lb)) = (a.last_successful_login, b.last_successful_login) {
        if lex_less(la@, lb@) {
            lemma_lex_less_irreflexive(la@, 0);
            if lex_less(lb@, la@) {
                lemma_lex_less_transitive(la@, lb@, la@, 0);
            }
        }
    }
}

/// What the selection means, in terms of the listed users alone: a user is
/// selected exactly when some listed user holds an active seat, has that
/// user's e-mail address, id, seat id and login, and no permanent entry has
/// the same lower-case address.
pub proof fn lemma_selection_meaning(users: Seq<CloudFlareUser>, permanent: Seq<User>)
    ensures
        forall|u: User| #[trigger] revocation_candidates(users, permanent).contains(u) <==> exists|i: int|
            0 <= i < users.len() && (#[trigger] users[i]).access_seat && users[i].email == Some(u.email) && u.id
                == Some(users[i].id) && u.seat_uid == users[i].seat_uid && u.last_successful_login
                == users[i].last_successful_login && forall|j: int|
                0 <= j < permanent.len() ==> lowercase(u.email@) != lowercase(#[trigger] permanent[j].email@),
{
    lemma_selection_exact(users, permanent);
    assert forall|u: User| #[trigger] revocation_candidates(users, permanent).contains(u) <==> exists|i: int|
        0 <= i < users.len() && (#[trigger] users[i]).access_seat && users[i].email == Some(u.email) && u.id
            == Some(users[i].id) && u.seat_uid == users[i].seat_uid && u.last_successful_login
            == users[i].last_successful_login && forall|j: int|
            0 <= j < permanent.len() ==> lowercase(u.email@) != lowercase(#[trigger] permanent[j].email@) by {
        if revocation_candidates(users, permanent).contains(u) {
            let i = choose|i: int| 0 <= i < users.len() && #[trigger] is_revocation_candidate(users[i], permanent)
                && user_from_cloudflare(users[i]) == Ok::<User, crate::user::MissingEmailError>(u);
            assert forall|j: int| 0 <= j < permanent.len() implies lowercase(u.email@) != lowercase(
                #[trigger] permanent[j].email@,
            ) by {
                if lowercase(u.email@) == lowercase(permanent[j].email@) {
                    assert(email_in_list(u.email@, permanent));
                }
            }
            assert(users[i].access_seat);
        }
        if exists|i: int|
            0 <= i < users.len() && (#[trigger] users[i]).access_seat && users[i].email == Some(u.email) && u.id
                == Some(users[i].id) && u.seat_uid == users[i].seat_uid && u.last_successful_login
                == users[i].last_successful_login && forall|j: int|
                0 <= j < permanent.len() ==> lowercase(u.email@) != lowercase(#[trigger] permanent[j].email@) {
            let i = choose|i: int|
                0 <= i < users.len() && (#[trigger] users[i]).access_seat && users[i].email == Some(u.email) && u.id
                    == Some(users[i].id) && u.seat_uid == users[i].seat_uid && u.last_successful_login
                    == users[i].last_successful_login && forall|j: int|
                    0 <= j < permanent.len() ==> lowercase(u.email@) != lowercase(#[trigger] permanent[j].email@);
            assert(!email_in_list(u.email@, permanent));
            assert(is_revocation_candidate(users[i], permanent));
            assert(user_from_cloudflare(users[i]) == Ok::<User, crate::user::MissingEmailError>(u));
        }
    }
}

} // verus!
