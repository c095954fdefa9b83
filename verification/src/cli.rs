//! Decisions of the command line program: verbosity, confirmation,
//! refusing to overwrite a config file, and how users are listed.

use vstd::prelude::*;
use crate::revocation::{Answer, answer_of, parse_answer};
use crate::user::User;

verus! {

/// Verbosity of the log output.
#[derive(PartialEq, Eq, Structural, Debug, Clone, Copy)]
pub enum LogLevel {
    Trace,
    Debug,
    Info,
    Warn,
    Error,
}

/// The log level for `-v` and `-q` counts: `-v` debug, `-vv` and more
/// trace, `-q` warnings, `-qq` and more errors only, info otherwise.
pub open spec fn level_for(verbose: u8, quiet: u8) -> LogLevel {
    if verbose >= 2 {
        LogLevel::Trace
    } else if verbose == 1 {
        LogLevel::Debug
    } else if quiet == 0 {
        LogLevel::Info
    } else if quiet == 1 {
        LogLevel::Warn
    } else {
        LogLevel::Error
    }
}

/// Chooses the log level from the `-v` and `-q` counts.
pub fn log_level(verbose: u8, quiet: u8) -> (r: LogLevel)
    ensures
        r == level_for(verbose, quiet),
{
    if verbose >= 2 {
        LogLevel::Trace
    } else if verbose == 1 {
        LogLevel::Debug
    } else if quiet == 0 {
        LogLevel::Info
    } else if quiet == 1 {
        LogLevel::Warn
    } else {
        LogLevel::Error
    }
}

/// The plural ending for a count of users: none for one, `s` otherwise.
pub fn plural_suffix(count: usize) -> (r: &'static str)
    ensures
        r@ == if count == 1 { ""@ } else { "s"@ },
{
    if count == 1 {
        ""
    } else {
        "s"
    }
}

/// Whether an answer to the confirmation prompt confirms: `y` or `yes`,
/// ignoring surrounding white space and case.
pub fn is_confirmation(input: &str) -> (r: bool)
    ensures
        r == (answer_of(input@) is Revoke),
{
    match parse_answer(input) {
        Answer::Revoke => true,
        _ => false,
    }
}

/// Whether writing the config template must be refused: the file exists
/// and overwriting was not forced.
pub fn init_config_refused(exists: bool, force: bool) -> (r: bool)
    ensures
        r == (exists && !force),
{
    exists && !force
}

/// The id of a user as it is shown, `no-id` when it has none.
pub open spec fn shown_id(user: User) -> Seq<char> {
    match user.id {
        Some(id) => id@,
        None => "no-id"@,
    }
}

/// The last login of a user as it is shown, `never/unknown` when there is
/// no record.
pub open spec fn shown_login(user: User) -> Seq<char> {
    match user.last_successful_login {
        Some(ts) => ts@,
        None => "never/unknown"@,
    }
}

impl User {
    /// The id as it is shown.
    pub fn id_label(&self) -> (r: &str)
        ensures
            r@ == shown_id(*self),
    {
        match &self.id {
            Some(id) => id.as_str(),
            None => "no-id",
        }
    }

    /// The last login as it is shown.
    pub fn login_label(&self) -> (r: &str)
        ensures
            r@ == shown_login(*self),
    {
        match &self.last_successful_login {
            Some(ts) => ts.as_str(),
            None => "never/unknown",
        }
    }
}

/// The line that lists one user among those whose seats are to be revoked.
pub fn user_summary(user: &User) -> (r: String)
    ensures
        r@ == "  - "@ + user.email@ + " ("@ + shown_id(*user) + ") last_successful_login="@ + shown_login(*user),
{
    let mut line = String::from_str("  - ");
    line.append(user.email.as_str());
    line.append(" (");
    line.append(user.id_label());
    line.append(") last_successful_login=");
    line.append(user.login_label());
    line
}

/// The lines that list the users whose seats are to be revoked, one per
/// user, in their order.
pub fn listing_lines(users: &[User]) -> (r: Vec<String>)
    ensures
        r@.len() == users@.len(),
        forall|i: int| 0 <= i < r@.len() ==> (#[trigger] r@[i])@ == "  - "@ + users@[i].email@ + " ("@ + shown_id(users@[i])
            + ") last_successful_login="@ + shown_login(users@[i]),
{
    let mut lines: Vec<String> = Vec::new();
    let mut i: usize = 0;
    while i < users.len()
        invariant
            0 <= i <= users@.len(),
            lines@.len() == i,
            forall|k: int| 0 <= k < i ==> (#[trigger] lines@[k])@ == "  - "@ + users@[k].email@ + " ("@ + shown_id(users@[k])
                + ") last_successful_login="@ + shown_login(users@[k]),
        decreases users@.len() - i,
    {
        lines.push(user_summary(&users[i]));
        i = i + 1;
    }
    lines
}

} // verus!
