//! Seat revocation: which seat a user's revocation targets, how the
//! outcomes of a batch are tallied, and the interactive review, one user at
//! a time.

use vstd::prelude::*;
use crate::text::{lowercase, to_lowercase, trimmed, trim};
use crate::user::User;

verus! {

/// The seat to revoke for a user, or the failure (e-mail address, reason)
/// when the user has no seat id.
pub fn seat_to_revoke(user: &User) -> (r: Result<String, (String, String)>)
    ensures
        match user.seat_uid {
            Some(uid) => r == Ok::<String, (String, String)>(uid),
            None => r matches Err((email, reason)) && email == user.email && reason@ == "missing seat_uid"@,
        },
{
    match &user.seat_uid {
        Some(uid) => Ok(uid.clone()),
        None => {
            let reason = String::from_str("missing seat_uid");
            proof {
                reveal_strlit("missing seat_uid");
            }
            Err((user.email.clone(), reason))
        },
    }
}

/// The outcome of one revocation for a user: success, or the failure
/// (e-mail address, error text) when the API call failed.
pub fn revocation_outcome(user: &User, call: Result<(), String>) -> (r: Result<(), (String, String)>)
    ensures
        match call {
            Ok(()) => r is Ok,
            Err(text) => r == Err::<(), (String, String)>((user.email, text)),
        },
{
    match call {
        Ok(()) => Ok(()),
        Err(text) => Err((user.email.clone(), text)),
    }
}

/// Counts of a finished batch of revocations.
#[derive(Debug)]
pub struct RevocationCounts {
    pub revoked: usize,
    pub skipped: usize,
    pub errors: usize,
}

/// Number of successes among revocation outcomes.
pub open spec fn successes(outcomes: Seq<Result<(), (String, String)>>) -> nat
    decreases outcomes.len(),
{
    if outcomes.len() == 0 {
        0
    } else {
        successes(outcomes.drop_last()) + if outcomes.last() is Ok { 1nat } else { 0nat }
    }
}

/// Tallies the outcomes of revoking the seats of a list of users: the batch
/// fails, naming the number of failures, when any revocation failed.
pub fn revoke_seats(outcomes: &[Result<(), (String, String)>]) -> (r: Result<RevocationCounts, usize>)
    ensures
        successes(outcomes@) <= outcomes@.len(),
        match r {
            Ok(counts) => counts.revoked == outcomes@.len() && counts.errors == 0 && counts.skipped == 0
                && successes(outcomes@) == outcomes@.len(),
            Err(errors) => errors == outcomes@.len() - successes(outcomes@) && errors > 0,
        },
{
    let mut revoked: usize = 0;
    let mut errors: usize = 0;
    let mut i: usize = 0;
    while i < outcomes.len()
        invariant
            0 <= i <= outcomes@.len(),
            revoked == successes(outcomes@.take(i as int)),
            revoked + errors == i,
        decreases outcomes@.len() - i,
    {
        proof {
            assert(outcomes@.take(i + 1).drop_last() == outcomes@.take(i as int));
        }
        if outcomes[i].is_ok() {
            revoked = revoked + 1;
        } else {
            errors = errors + 1;
        }
        i = i + 1;
    }
    proof {
        assert(outcomes@.take(outcomes@.len() as int) == outcomes@);
    }
    if errors > 0 {
        Err(errors)
    } else {
        Ok(RevocationCounts { revoked, skipped: 0, errors: 0 })
    }
}

/// An answer to the question whether to revoke one user's seat.
#[derive(PartialEq, Eq, Structural, Debug, Clone, Copy)]
pub enum Answer {
    /// Revoke this user's seat (`y`, `yes`).
    Revoke,
    /// Keep this user; the default for any other input.
    Keep,
    /// Revoke this and all remaining users' seats (`a`, `all`).
    RevokeAll,
    /// Stop immediately (`q`, `quit`).
    Quit,
}

/// The answer that an input line stands for, read without surrounding
/// white space and without regard to case.
pub open spec fn answer_of(input: Seq<char>) -> Answer {
    let t = lowercase(trimmed(input));
    if t == "y"@ || t == "yes"@ {
        Answer::Revoke
    } else if t == "a"@ || t == "all"@ {
        Answer::RevokeAll
    } else if t == "q"@ || t == "quit"@ {
        Answer::Quit
    } else {
        Answer::Keep
    }
}

/// What the answers mean: after trimming white space and lower-casing,
/// `y` or `yes` revokes, `a` or `all` revokes the rest, `q` or `quit`
/// stops, and every other input keeps the user.
pub proof fn lemma_answer_meaning(input: Seq<char>)
    ensures
        ({
            let t = lowercase(trimmed(input));
            &&& (answer_of(input) == Answer::Revoke <==> (t == "y"@ || t == "yes"@))
            &&& (answer_of(input) == Answer::RevokeAll <==> (t == "a"@ || t == "all"@))
            &&& (answer_of(input) == Answer::Quit <==> (t == "q"@ || t == "quit"@))
            &&& (answer_of(input) == Answer::Keep <==> !(t == "y"@ || t == "yes"@ || t == "a"@ || t == "all"@ || t
                == "q"@ || t == "quit"@))
        }),
{
    reveal_strlit("y");
    reveal_strlit("yes");
    reveal_strlit("a");
    reveal_strlit("all");
    reveal_strlit("q");
    reveal_strlit("quit");
    let t = lowercase(trimmed(input));
    assert("y"@[0] != "a"@[0] && "y"@[0] != "q"@[0] && "a"@[0] != "q"@[0]);
    assert("y"@ != "a"@ && "y"@ != "q"@ && "a"@ != "q"@);
    assert("y"@.len() != "yes"@.len() && "y"@.len() != "all"@.len() && "y"@.len() != "quit"@.len());
    assert("yes"@[0] != "all"@[0]);
    assert("yes"@ != "all"@ && "yes"@.len() != "quit"@.len() && "a"@.len() != "yes"@.len());
    assert("a"@.len() != "all"@.len() && "a"@.len() != "quit"@.len() && "all"@.len() != "quit"@.len());
    assert("q"@.len() != "yes"@.len() && "q"@.len() != "all"@.len() && "q"@.len() != "quit"@.len());
    assert("yes"@[0] != "all"@[0]);
}

/// Whether a text equals the characters of a literal.
fn text_is(s: &String, lit: &str) -> (r: bool)
    ensures
        r == (s@ == lit@),
{
    let other = String::from_str(lit);
    *s == other
}

/// Reads an answer from an input line.
pub fn parse_answer(input: &str) -> (r: Answer)
    ensures
        r == answer_of(input@),
{
    let t = to_lowercase(trim(input));
    if text_is(&t, "y") || text_is(&t, "yes") {
        Answer::Revoke
    } else if text_is(&t, "a") || text_is(&t, "all") {
        Answer::RevokeAll
    } else if text_is(&t, "q") || text_is(&t, "quit") {
        Answer::Quit
    } else {
        Answer::Keep
    }
}

/// Where the interactive review stands.
#[derive(PartialEq, Eq, Structural, Debug, Clone, Copy)]
pub enum ReviewMode {
    /// The next user is to be asked about.
    Asking,
    /// The user at the current position is to have its seat revoked, then
    /// the review asks again.
    RevokeOne,
    /// The users from the current position on all have their seats revoked.
    RevokeRest,
    /// The review was quit.
    Stopped,
}

/// What the interactive review wants done next.
#[derive(PartialEq, Eq, Structural, Debug, Clone, Copy)]
pub enum ReviewStep {
    /// Ask about the user at this position of the list.
    Ask(usize),
    /// Revoke the seat of the user at this position of the list.
    Revoke(usize),
    /// The review is over.
    Finished,
}

/// State of the interactive review of a list of users, one at a time.
#[derive(Debug)]
pub struct InteractiveReview {
    /// Number of users under review.
    pub total: usize,
    /// Position of the user now under review; the users before it are done.
    pub position: usize,
    pub mode: ReviewMode,
    pub revoked: usize,
    pub skipped: usize,
    pub errors: usize,
}

impl InteractiveReview {
    /// The counts always account for exactly the users already reviewed.
    pub open spec fn wf(self) -> bool {
        &&& self.position <= self.total
        &&& self.revoked + self.skipped + self.errors == self.position
        &&& (self.mode == ReviewMode::RevokeOne ==> self.position < self.total)
    }

    /// The next step of a review.
    pub open spec fn step_of(self) -> ReviewStep {
        match self.mode {
            ReviewMode::Stopped => ReviewStep::Finished,
            ReviewMode::RevokeOne => ReviewStep::Revoke(self.position),
            ReviewMode::RevokeRest => if self.position < self.total {
                ReviewStep::Revoke(self.position)
            } else {
                ReviewStep::Finished
            },
            ReviewMode::Asking => if self.position < self.total {
                ReviewStep::Ask(self.position)
            } else {
                ReviewStep::Finished
            },
        }
    }

    /// The review after an answer about the user under review.
    pub open spec fn after_answer(self, answer: Answer) -> Self {
        match answer {
            Answer::Revoke => InteractiveReview { mode: ReviewMode::RevokeOne, ..self },
            Answer::RevokeAll => InteractiveReview { mode: ReviewMode::RevokeRest, ..self },
            Answer::Quit => InteractiveReview { mode: ReviewMode::Stopped, ..self },
            Answer::Keep => InteractiveReview {
                position: (self.position + 1) as usize,
                skipped: (self.skipped + 1) as usize,
                ..self
            },
        }
    }

    /// The review after the revocation of the seat of the user under review
    /// succeeded or failed.
    pub open spec fn after_revocation(self, succeeded: bool) -> Self {
        InteractiveReview {
            position: (self.position + 1) as usize,
            revoked: if succeeded { (self.revoked + 1) as usize } else { self.revoked },
            errors: if succeeded { self.errors } else { (self.errors + 1) as usize },
            mode: if self.mode == ReviewMode::RevokeOne { ReviewMode::Asking } else { self.mode },
            ..self
        }
    }

    /// The review after a run of revocations with the given results.
    pub open spec fn after_revocations(self, results: Seq<bool>) -> Self
        decreases results.len(),
    {
        if results.len() == 0 {
            self
        } else {
            self.after_revocations(results.drop_last()).after_revocation(results.last())
        }
    }

    /// A review of `total` users, starting with the first.
    pub fn new(total: usize) -> (r: Self)
        ensures
            r.wf(),
            r.total == total,
            r.position == 0,
            r.mode == ReviewMode::Asking,
            r.revoked == 0 && r.skipped == 0 && r.errors == 0,
    {
        InteractiveReview { total, position: 0, mode: ReviewMode::Asking, revoked: 0, skipped: 0, errors: 0 }
    }

    /// What is to be done next.
    pub fn next_step(&self) -> (r: ReviewStep)
        ensures
            r == self.step_of(),
    {
        match self.mode {
            ReviewMode::Stopped => ReviewStep::Finished,
            ReviewMode::RevokeOne => ReviewStep::Revoke(self.position),
            ReviewMode::RevokeRest => if self.position < self.total {
                ReviewStep::Revoke(self.position)
            } else {
                ReviewStep::Finished
            },
            ReviewMode::Asking => if self.position < self.total {
                ReviewStep::Ask(self.position)
            } else {
                ReviewStep::Finished
            },
        }
    }

    /// Takes the answer about the user under review.
    pub fn record_answer(&mut self, answer: Answer)
        requires
            old(self).wf(),
            old(self).step_of() is Ask,
        ensures
            *final(self) == old(self).after_answer(answer),
            final(self).wf(),
    {
        match answer {
            Answer::Revoke => {
                self.mode = ReviewMode::RevokeOne;
            },
            Answer::RevokeAll => {
                self.mode = ReviewMode::RevokeRest;
            },
            Answer::Quit => {
                self.mode = ReviewMode::Stopped;
            },
            Answer::Keep => {
                self.position = self.position + 1;
                self.skipped = self.skipped + 1;
            },
        }
    }

    /// Takes the result of revoking the seat of the user under review.
    pub fn record_revocation(&mut self, succeeded: bool)
        requires
            old(self).wf(),
            old(self).step_of() is Revoke,
        ensures
            *final(self) == old(self).after_revocation(succeeded),
            final(self).wf(),
    {
        self.position = self.position + 1;
        if succeeded {
            self.revoked = self.revoked + 1;
        } else {
            self.errors = self.errors + 1;
        }
        if self.mode == ReviewMode::RevokeOne {
            self.mode = ReviewMode::Asking;
        }
    }

    /// The counts of the review, or the number of failed revocations when
    /// any failed.
    pub fn outcome(&self) -> (r: Result<RevocationCounts, usize>)
        ensures
            self.errors > 0 ==> r == Err::<RevocationCounts, usize>(self.errors),
            self.errors == 0 ==> (r matches Ok(c) && c.revoked == self.revoked && c.skipped == self.skipped
                && c.errors == 0),
    {
        if self.errors > 0 {
            Err(self.errors)
        } else {
            Ok(RevocationCounts { revoked: self.revoked, skipped: self.skipped, errors: 0 })
        }
    }
}

/// Each step of the review keeps its counts in line with the users reviewed,
/// and moves it forward: after an answer or a revocation either the position
/// advances or the user under review is next to be revoked, or the review is
/// over.
pub proof fn lemma_review_steps_keep_counts(s: InteractiveReview, answer: Answer, succeeded: bool)
    requires
        s.wf(),
    ensures
        s.step_of() is Ask ==> s.after_answer(answer).wf(),
        s.step_of() is Revoke ==> s.after_revocation(succeeded).wf()
            && s.after_revocation(succeeded).position == s.position + 1,
        s.step_of() is Ask && answer is Keep ==> s.after_answer(answer).revoked == s.revoked
            && s.after_answer(answer).position == s.position + 1,
        s.step_of() is Ask && answer is Revoke ==> s.after_answer(answer).step_of() == ReviewStep::Revoke(s.position),
        s.step_of() is Ask && answer is Quit ==> s.after_answer(answer).step_of() == ReviewStep::Finished
            && s.after_answer(answer).revoked == s.revoked && s.after_answer(answer).errors == s.errors,
        s.step_of() is Revoke && s.mode == ReviewMode::RevokeOne ==>
            s.after_revocation(succeeded).mode == ReviewMode::Asking,
{
}

/// Answering "all" about the user at position `i` revokes the seats of that
/// user and of every user after it, one after the other, and then ends the
/// review; every revocation is counted as a success or an error.
pub proof fn lemma_revoke_all_reaches_every_remaining_user(s: InteractiveReview, results: Seq<bool>)
    requires
        s.wf(),
        s.step_of() is Ask,
        results.len() <= s.total - s.position,
    ensures
        ({
            let after = s.after_answer(Answer::RevokeAll).after_revocations(results);
            &&& after.wf()
            &&& after.mode == ReviewMode::RevokeRest
            &&& after.total == s.total
            &&& after.position == s.position + results.len()
            &&& after.revoked + after.errors == s.revoked + s.errors + results.len()
            &&& after.skipped == s.skipped
            &&& (results.len() < s.total - s.position ==> after.step_of()
                == ReviewStep::Revoke((s.position + results.len()) as usize))
            &&& (results.len() == s.total - s.position ==> after.step_of() == ReviewStep::Finished)
        }),
    decreases results.len(),
{
    let start = s.after_answer(Answer::RevokeAll);
    if results.len() > 0 {
        lemma_revoke_all_reaches_every_remaining_user(s, results.drop_last());
        let prev = start.after_revocations(results.drop_last());
        assert(prev.position < prev.total);
        assert(start.after_revocations(results) == prev.after_revocation(results.last()));
    } else {
        assert(start.after_revocations(results) == start);
    }
}

} // verus!
