//! Users as the CloudFlare Access API lists them, and the unified user that
//! is compared against the permanent list.

use vstd::prelude::*;
use vstd::std_specs::convert::TryFromSpecImpl;
use crate::text::{lowercase, to_lowercase};

verus! {

/// A user as returned by the CloudFlare Access Users API.
#[derive(Debug, Clone)]
pub struct CloudFlareUser {
    pub id: String,
    pub email: Option<String>,
    /// Whether this user has an active Access seat.
    pub access_seat: bool,
    /// Identifier of the user's seat in the seat management API.
    pub seat_uid: Option<String>,
    /// Time stamp of the last successful login, as the API reports it.
    pub last_successful_login: Option<String>,
}

impl CloudFlareUser {
    /// True if this user has an active Zero Trust seat.
    pub fn has_active_seat(&self) -> (r: bool)
        ensures
            r == self.access_seat,
    {
        self.access_seat
    }
}

/// Unified user representation for comparison.
#[derive(Debug, Clone, PartialEq, Eq, Hash)]
pub struct User {
    pub id: Option<String>,
    pub email: String,
    pub seat_uid: Option<String>,
    pub last_successful_login: Option<String>,
}

/// Error when converting a CloudFlare user that has no e-mail address.
#[derive(Debug)]
pub struct MissingEmailError {
    pub user_id: String,
}

/// The user that a CloudFlare user becomes, or the error naming it when it
/// has no e-mail address.
pub open spec fn user_from_cloudflare(cf: CloudFlareUser) -> Result<User, MissingEmailError> {
    match cf.email {
        Some(email) => Ok(
            User {
                id: Some(cf.id),
                email: email,
                seat_uid: cf.seat_uid,
                last_successful_login: cf.last_successful_login,
            },
        ),
        None => Err(MissingEmailError { user_id: cf.id }),
    }
}

impl TryFrom<CloudFlareUser> for User {
    type Error = MissingEmailError;

    fn try_from(cf_user: CloudFlareUser) -> (r: Result<Self, Self::Error>) {
        match cf_user.email {
            Some(email) => Ok(
                User {
                    id: Some(cf_user.id),
                    email,
                    seat_uid: cf_user.seat_uid,
                    last_successful_login: cf_user.last_successful_login,
                },
            ),
            None => Err(MissingEmailError { user_id: cf_user.id }),
        }
    }
}

impl TryFromSpecImpl<CloudFlareUser> for User {
    open spec fn obeys_try_from_spec() -> bool {
        true
    }

    open spec fn try_from_spec(cf_user: CloudFlareUser) -> Result<Self, MissingEmailError> {
        user_from_cloudflare(cf_user)
    }
}

/// Whether two e-mail addresses are the same address, ignoring case.
pub open spec fn same_email(a: Seq<char>, b: Seq<char>) -> bool {
    lowercase(a) == lowercase(b)
}

/// Whether an e-mail address matches one of the users of a list.
pub open spec fn email_in_list(email: Seq<char>, list: Seq<User>) -> bool {
    exists|i: int| 0 <= i < list.len() && same_email(email, #[trigger] list[i].email@)
}

impl User {
    /// A user made from an e-mail address of the permanent list.
    pub fn from_email(email: String) -> (r: Self)
        ensures
            r.id is None,
            r.email == email,
            r.seat_uid is None,
            r.last_successful_login is None,
    {
        User { id: None, email, seat_uid: None, last_successful_login: None }
    }

    /// True if this user matches another by e-mail, case-insensitively.
    pub fn matches(&self, other: &Self) -> (r: bool)
        ensures
            r == same_email(self.email@, other.email@),
            r == (lowercase(self.email@) == lowercase(other.email@)),
    {
        let a = to_lowercase(self.email.as_str());
        let b = to_lowercase(other.email.as_str());
        a == b
    }

    /// True if this user's e-mail is in a list of permanent users.
    pub fn is_in_permanent_list(&self, permanent_users: &[Self]) -> (r: bool)
        ensures
            r == email_in_list(self.email@, permanent_users@),
            r == exists|i: int| 0 <= i < permanent_users@.len()
                && lowercase(self.email@) == lowercase(#[trigger] permanent_users@[i].email@),
    {
        let mine = to_lowercase(self.email.as_str());
        let mut i: usize = 0;
        while i < permanent_users.len()
            invariant
                0 <= i <= permanent_users@.len(),
                mine@ == lowercase(self.email@),
                forall|j: int| 0 <= j < i ==> !same_email(self.email@, #[trigger] permanent_users@[j].email@),
            decreases permanent_users@.len() - i,
        {
            let theirs = to_lowercase(permanent_users[i].email.as_str());
            if mine == theirs {
                assert(same_email(self.email@, permanent_users@[i as int].email@));
                return true;
            }
            i = i + 1;
        }
        false
    }
}

/// Matching by e-mail is an equivalence: every user matches itself, matching
/// is symmetric, and two users that match a third match each other.
pub proof fn lemma_matching_is_equivalence(a: User, b: User, c: User)
    ensures
        same_email(a.email@, a.email@),
        same_email(a.email@, b.email@) == same_email(b.email@, a.email@),
        same_email(a.email@, b.email@) && same_email(b.email@, c.email@) ==> same_email(a.email@, c.email@),
{
}

/// Matching looks at the e-mail address alone: users with the same address
/// match each other whatever their ids, seats and logins.
pub proof fn lemma_matching_ignores_other_fields(a: User, b: User)
    requires
        a.email@ == b.email@,
    ensures
        same_email(a.email@, b.email@),
{
}

/// Membership in the permanent list is kept when entries are added to the
/// list, and a user is always in a list that holds its own address.
pub proof fn lemma_permanent_list_membership(email: Seq<char>, list: Seq<User>, more: Seq<User>, entry: User)
    ensures
        email_in_list(email, list) ==> email_in_list(email, list + more),
        email_in_list(email, more) ==> email_in_list(email, list + more),
        email_in_list(email, list.push(entry)) == (email_in_list(email, list) || same_email(email, entry.email@)),
        same_email(email, entry.email@) ==> email_in_list(email, seq![entry]),
{
    if email_in_list(email, list) {
        let i = choose|i: int| 0 <= i < list.len() && same_email(email, #[trigger] list[i].email@);
        assert((list + more)[i] == list[i]);
    }
    if email_in_list(email, more) {
        let i = choose|i: int| 0 <= i < more.len() && same_email(email, #[trigger] more[i].email@);
        assert((list + more)[list.len() + i] == more[i]);
    }
    if email_in_list(email, list.push(entry)) {
        let i = choose|i: int| 0 <= i < list.len() + 1 && same_email(email, #[trigger] list.push(entry)[i].email@);
        if i < list.len() {
            assert(list.push(entry)[i] == list[i]);
        }
    }
    if email_in_list(email, list) {
        let i = choose|i: int| 0 <= i < list.len() && same_email(email, #[trigger] list[i].email@);
        assert(list.push(entry)[i] == list[i]);
    }
    if same_email(email, entry.email@) {
        assert(list.push(entry)[list.len() as int] == entry);
        assert(seq![entry][0] == entry);
    }
}

/// Two addresses match exactly when their whole lower-case forms, as
/// `str::to_lowercase` gives them, are equal; a user is on the permanent
/// list exactly when some entry's whole lower-case address equals its own.
pub proof fn lemma_matching_meaning(a: Seq<char>, b: Seq<char>, list: Seq<User>)
    ensures
        same_email(a, b) <==> lowercase(a) == lowercase(b),
        email_in_list(a, list) <==> exists|i: int| 0 <= i < list.len() && lowercase(a) == lowercase(
            #[trigger] list[i].email@,
        ),
{
}

/// A CloudFlare user converts into a user exactly when it has an e-mail
/// address; the user keeps its address, id, seat id and login, and a user
/// without an address is reported by its id.
pub proof fn lemma_conversion_meaning(cf: CloudFlareUser)
    ensures
        cf.email matches Some(e) ==> (user_from_cloudflare(cf) matches Ok(u) && u.email == e && u.id == Some(cf.id)
            && u.seat_uid == cf.seat_uid && u.last_successful_login == cf.last_successful_login),
        cf.email is None ==> (user_from_cloudflare(cf) matches Err(err) && err.user_id == cf.id),
{
}

} // verus!
